//! yadl resolves public links of Yandex.Disk to direct links and receives the files behind
//! them.
//!
//! The library holds the decisions: which request is sent, what a response means, under which
//! name a file is saved and whether it has arrived. It performs no input or output; a program
//! around it sends the requests and writes the files.
//!
//! * [`text`], [`url`], [`json`] and [`http`] hold the vocabulary of the contracts: texts,
//!   addresses, JSON documents and status codes.
//! * [`page`] and [`web`] read the web page of a link and speak its internal API.
//! * [`session`] and [`resolve`] make a link into a sequence of steps, over the public REST
//!   API or over the web page.
//! * [`transfer`] follows the bytes of a file, and [`output`] names and describes it.
//! * [`failure`] lists what can go wrong.

pub mod failure;
pub mod http;
pub mod json;
pub mod output;
pub mod page;
pub mod resolve;
pub mod session;
pub mod text;
pub mod transfer;
pub mod url;
pub mod web;
