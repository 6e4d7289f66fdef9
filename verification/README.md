# yadl

Downloads files from Yandex.Disk by a public link, without a browser.

A public link is turned into a direct link in one of two ways:

* `cloud`: over the public REST API (the default);
* `web`: over the internal API of the link's own web page, as its download button does.

The REST API takes no password, so a link that has one goes over to the web page.

## Layout

* `src/` is the library: what is asked, what an answer means, where a file goes and whether it
  is complete, with contracts proved by Verus. It performs no input or output.
* `app/` is the program around it: arguments, sending, decoding the description of a link,
  files and the progress bar.
* `tests/` exercises the library on concrete values.

## What is proved

* Addresses, request bodies, messages and file names are exactly what their specifications say.
* A parameter, a number or a request record reads back as what was written.
* A session ends after at most six requests, repeats a call at most once for a renewed session
  key, and asks for the file behind a password only with the token that the password gave.
* A file name that the library makes is never empty, holds no separator and is more than dots.
* A resumed transfer appends to what is there, one of the wrong size is reported,
  and an answer with the status of an error leaves the file alone.

## What is trusted

JSON text is read and written by `serde_json`, percent-encoding is that of `percent-encoding`,
and the words for a status code are those of `reqwest`. The wrappers around these calls say in
their doc comments what is taken for granted.
