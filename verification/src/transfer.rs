//! The transfer of a file: where it starts, how far it has come and whether it is complete.

use vstd::prelude::*;

use crate::failure::{message_of, Failure};
use crate::http::{is_error, Status};
use crate::text::{
    decimal, decimal_text, law_decimal_round_trip, law_numerals_differ, lemma_decimal_value,
    parsed_u64, text_of,
};

verus! {

/// How many bytes of the file are already there: what the file holds, where the transfer is
/// to be resumed and the file exists.
pub open spec fn kept_bytes(resume: bool, existing: Option<u64>) -> u64 {
    match existing {
        Some(len) => if resume {
            len
        } else {
            0
        },
        None => 0,
    }
}

/// The offset from which the file is asked for.
pub fn start_offset(resume: bool, existing: Option<u64>) -> (offset: u64)
    ensures
        offset == kept_bytes(resume, existing),
{
    match existing {
        Some(len) => if resume {
            len
        } else {
            0
        },
        None => 0,
    }
}

/// The value of the `Range` header for a transfer from `offset`; none for the whole file.
pub open spec fn range_of(offset: u64) -> Option<Seq<char>> {
    if offset > 0 {
        Some("bytes="@ + decimal(offset as nat) + "-"@)
    } else {
        None
    }
}

/// The value of the `Range` header for a transfer from `offset`; none for the whole file.
pub fn range_header(offset: u64) -> (value: Option<String>)
    ensures
        text_of(value) == range_of(offset),
{
    if offset > 0 {
        let mut s = "bytes=".to_string();
        s.append(decimal_text(offset).as_str());
        s.append("-");
        Some(s)
    } else {
        None
    }
}

/// A transfer: the offset from which bytes are written, the position behind the last byte
/// written, the size to show, and the size that the file was announced with.
#[derive(Debug, Clone, Copy, PartialEq, Eq)]
pub struct Transfer {
    pub offset: u64,
    pub written: u64,
    pub total: Option<u64>,
    pub expected: Option<u64>,
}

/// The offset that holds once the server has answered: a server that did not send part of
/// the file sends all of it.
pub open spec fn granted_offset(asked: u64, code: u16) -> u64 {
    if code == 206 {
        asked
    } else {
        0
    }
}

/// The transfer that a response without the status of an error starts. The size to show is what the response still brings
/// and what is there already, else the announced size.
pub open spec fn started(
    asked: u64,
    code: u16,
    content_length: Option<u64>,
    expected: Option<u64>,
) -> Transfer {
    let offset = granted_offset(asked, code);
    Transfer {
        offset,
        written: offset,
        total: match content_length {
            Some(n) => Some((n + offset) as u64),
            None => expected,
        },
        expected,
    }
}

/// What a response leads to: a refusal, in the words in which the HTTP client reports it,
/// where its status is one of an error, else a transfer.
pub open spec fn opened(
    asked: u64,
    code: u16,
    report: Seq<char>,
    content_length: Option<u64>,
    expected: Option<u64>,
) -> Result<Transfer, Failure<Seq<char>>> {
    if is_error(code) {
        Err(Failure::StatusRefused { code, report })
    } else {
        Ok(started(asked, code, content_length, expected))
    }
}

/// The transfer after `n` more bytes.
pub open spec fn advanced(transfer: Transfer, n: u64) -> Transfer {
    Transfer { written: (transfer.written + n) as u64, ..transfer }
}

/// Every announced byte is there.
pub open spec fn is_complete(transfer: Transfer) -> bool {
    transfer.expected is None || transfer.expected == Some(transfer.written)
}

impl Transfer {
    /// The transfer that a response to a request from the offset `asked` starts, or the
    /// refusal in it. The file is opened for a transfer only. `report` is what the HTTP client
    /// says of the status where it is one of an error.
    pub fn begin(
        asked: u64,
        status: Status,
        report: &str,
        content_length: Option<u64>,
        expected: Option<u64>,
    ) -> (transfer: Result<Transfer, Failure<String>>)
        requires
            content_length matches Some(n) ==> n + granted_offset(asked, status.number())
                <= u64::MAX,
        ensures
            match transfer {
                Ok(t) => opened(asked, status.number(), report@, content_length, expected) == Ok::<
                    Transfer,
                    Failure<Seq<char>>,
                >(t),
                Err(f) => opened(asked, status.number(), report@, content_length, expected) == Err::<
                    Transfer,
                    Failure<Seq<char>>,
                >(f@),
            },
    {
        if status.is_error() {
            return Err(
                Failure::StatusRefused { code: status.code(), report: report.to_string() },
            );
        }
        let offset: u64 = if status.code() == 206 {
            asked
        } else {
            0
        };
        let total = match content_length {
            Some(n) => Some(n + offset),
            None => expected,
        };
        Ok(Transfer { offset, written: offset, total, expected })
    }

    /// Whether the file is emptied before bytes are written.
    pub fn truncates(&self) -> (truncates: bool)
        ensures
            truncates == (self.offset == 0),
    {
        self.offset == 0
    }

    /// Takes note of `n` bytes written.
    pub fn advance(&mut self, n: u64)
        requires
            old(self).written + n <= u64::MAX,
        ensures
            *final(self) == advanced(*old(self), n),
    {
        self.written = self.written + n;
    }

    /// Whether the file has the size that it was announced with.
    pub fn finish(&self) -> (result: Result<(), Failure<String>>)
        ensures
            match result {
                Ok(_) => is_complete(*self),
                Err(failure) => self.expected is Some && self.expected->0 != self.written
                    && failure@ == (Failure::<Seq<char>>::SizeMismatch {
                    received: self.written,
                    expected: self.expected->0,
                }),
            },
    {
        if let Some(expected) = self.expected {
            if self.written != expected {
                return Err(Failure::SizeMismatch { received: self.written, expected });
            }
        }
        Ok(())
    }
}

// ---------------------------------------------------------------- laws

/// The number of bytes in a sequence of pieces.
pub open spec fn total_bytes(pieces: Seq<Seq<u8>>) -> nat
    decreases pieces.len(),
{
    if pieces.len() == 0 {
        0
    } else {
        total_bytes(pieces.drop_last()) + pieces.last().len()
    }
}

/// The transfer after every piece was written.
pub open spec fn after_pieces(transfer: Transfer, pieces: Seq<Seq<u8>>) -> Transfer
    decreases pieces.len(),
{
    if pieces.len() == 0 {
        transfer
    } else {
        advanced(after_pieces(transfer, pieces.drop_last()), pieces.last().len() as u64)
    }
}

/// The file that a transfer leaves behind: it is emptied or kept, and the bytes are written
/// over it from the offset on.
pub open spec fn file_after(before: Seq<u8>, transfer: Transfer, bytes: Seq<u8>) -> Seq<u8> {
    if transfer.offset == 0 {
        bytes
    } else {
        let end = transfer.offset + bytes.len();
        before.take(transfer.offset as int) + bytes + (if end < before.len() {
            before.skip(end)
        } else {
            Seq::empty()
        })
    }
}

/// The file that a response leaves behind, of which `bytes` arrive; there may have been none
/// before.
pub open spec fn file_left(
    before: Option<Seq<u8>>,
    response: Result<Transfer, Failure<Seq<char>>>,
    bytes: Seq<u8>,
) -> Option<Seq<u8>> {
    match response {
        Ok(transfer) => Some(
            file_after(
                match before {
                    Some(held) => held,
                    None => Seq::empty(),
                },
                transfer,
                bytes,
            ),
        ),
        Err(_) => before,
    }
}

/// A response starts no transfer exactly where its status is one of an error. The file is
/// then left as it was, or missing where it was missing, and the message is what the HTTP
/// client reports.
pub proof fn law_refusal_keeps_file(
    before: Option<Seq<u8>>,
    asked: u64,
    code: u16,
    report: Seq<char>,
    content_length: Option<u64>,
    expected: Option<u64>,
    bytes: Seq<u8>,
)
    ensures
        opened(asked, code, report, content_length, expected) is Err <==> is_error(code),
        is_error(code) ==> file_left(
            before,
            opened(asked, code, report, content_length, expected),
            bytes,
        ) == before,
        opened(asked, code, report, content_length, expected) matches Err(failure)
            ==> message_of(failure) == report && failure == (Failure::StatusRefused {
            code,
            report,
        }),
{
}

/// A transfer counts the offset and every byte that arrived, and keeps the rest of itself:
/// it is complete exactly where no size was announced or the count is the announced size.
pub proof fn law_transfer_counts(transfer: Transfer, pieces: Seq<Seq<u8>>)
    requires
        transfer.written + total_bytes(pieces) <= u64::MAX,
    ensures
        after_pieces(transfer, pieces) == (Transfer {
            written: (transfer.written + total_bytes(pieces)) as u64,
            ..transfer
        }),
        is_complete(after_pieces(transfer, pieces)) <==> transfer.expected is None
            || transfer.expected->0 == transfer.written + total_bytes(pieces),
    decreases pieces.len(),
{
    if pieces.len() > 0 {
        law_transfer_counts(transfer, pieces.drop_last());
    }
}

/// A resumed transfer appends: where the server sends the part that was asked for, the file
/// keeps all it held and goes on with the bytes that arrive, without a gap; where it sends
/// the whole file, that holds what arrives alone. Its length is the position of the transfer.
/// A response with the status of an error starts no transfer.
pub proof fn law_resume_appends(
    before: Seq<u8>,
    resume: bool,
    code: u16,
    report: Seq<char>,
    content_length: Option<u64>,
    expected: Option<u64>,
    bytes: Seq<u8>,
)
    requires
        !is_error(code),
        before.len() + bytes.len() <= u64::MAX,
    ensures
        ({
            let asked = kept_bytes(resume, Some(before.len() as u64));
            let transfer = started(asked, code, content_length, expected);
            let response = opened(asked, code, report, content_length, expected);
            let after = file_after(before, transfer, bytes);
            &&& file_left(Some(before), response, bytes) == Some(after)
            &&& resume && code == 206 ==> after == before + bytes
            &&& !(resume && code == 206) ==> after == bytes
            &&& after.len() == advanced(transfer, bytes.len() as u64).written
        }),
{
    let asked = kept_bytes(resume, Some(before.len() as u64));
    let transfer = started(asked, code, content_length, expected);
    if transfer.offset == 0 {
        if resume && code == 206 {
            assert(before.len() == 0);
            assert(before + bytes =~= bytes);
        }
    } else {
        assert(before.take(transfer.offset as int) =~= before);
        assert(file_after(before, transfer, bytes) =~= before + bytes);
    }
}

/// A transfer is resumed from the end of a file that is there, and from nowhere else.
pub proof fn law_resumes_from_end(resume: bool, existing: Option<u64>)
    ensures
        resume ==> (existing matches Some(len) ==> kept_bytes(resume, existing) == len),
        !resume || existing is None ==> kept_bytes(resume, existing) == 0,
{
}

/// The part of a file that is asked for starts at the offset: the header holds a run of digits
/// that reads back as it, and two offsets never have the same header. A whole file has none.
pub proof fn law_range_names_offset(offset: u64, other: u64)
    ensures
        offset == 0 <==> range_of(offset) is None,
        offset > 0 ==> exists|number: Seq<char>|
            range_of(offset) == Some(#[trigger] ("bytes="@ + number + "-"@)) && parsed_u64(number)
                == Some(offset) && number[0] != '0' && forall|i: int|
                0 <= i < number.len() ==> 48 <= (#[trigger] number[i]) as int <= 57,
        range_of(offset) == range_of(other) ==> offset == other,
{
    let number = decimal(offset as nat);
    let second = decimal(other as nat);
    law_decimal_round_trip(offset);
    law_decimal_round_trip(other);
    lemma_decimal_value(offset as nat);
    law_numerals_differ(offset as nat, other as nat);
    if offset > 0 {
        assert(range_of(offset) == Some("bytes="@ + number + "-"@));
    }
    if offset > 0 && range_of(offset) == range_of(other) {
        reveal_strlit("bytes=");
        reveal_strlit("-");
        let value = "bytes="@ + number + "-"@;
        assert(value == "bytes="@ + second + "-"@);
        assert(value.len() == number.len() + 7 && value.len() == second.len() + 7);
        assert(value.subrange(6, value.len() - 1) =~= number);
        assert(("bytes="@ + second + "-"@).subrange(6, value.len() - 1) =~= second);
        assert(number == second);
    }
}

/// A response without the status of an error starts a transfer behind the bytes that are kept
/// where it brings a part of the file, and at the start of the file else. The size to show is
/// what is kept and what the response brings, or the announced size where it does not say.
pub proof fn law_transfer_starts(
    asked: u64,
    code: u16,
    report: Seq<char>,
    content_length: Option<u64>,
    expected: Option<u64>,
)
    requires
        !(400 <= code <= 599),
        content_length matches Some(n) ==> n + asked <= u64::MAX,
    ensures
        opened(asked, code, report, content_length, expected) matches Ok(transfer) && {
            &&& code == 206 ==> transfer.offset == asked
            &&& code != 206 ==> transfer.offset == 0
            &&& transfer.written == transfer.offset
            &&& transfer.expected == expected
            &&& content_length is None ==> transfer.total == expected
            &&& content_length matches Some(n) ==> (transfer.total matches Some(total) && total
                == n + transfer.offset)
        },
{
}

/// The only thing that bytes change in a transfer is its position, by their number. It is
/// complete exactly where no size was announced or the position is that size.
pub proof fn law_bytes_move_position(transfer: Transfer, n: u64)
    requires
        transfer.written + n <= u64::MAX,
    ensures
        advanced(transfer, n).written == transfer.written + n,
        advanced(transfer, n).offset == transfer.offset,
        advanced(transfer, n).total == transfer.total,
        advanced(transfer, n).expected == transfer.expected,
        is_complete(transfer) <==> (transfer.expected matches Some(size) ==> size
            == transfer.written),
{
}

/// A download that was broken off becomes the file when it is resumed: where the server sends
/// what stands behind the number in the header, the file holds all of the server's file, and
/// the transfer is complete.
pub proof fn law_resumed_file_is_whole(file: Seq<u8>, kept: u64, report: Seq<char>)
    requires
        0 < kept <= file.len() <= u64::MAX,
    ensures
        ({
            let asked = kept_bytes(true, Some(kept));
            let before = file.take(kept as int);
            exists|number: Seq<char>|
                range_of(asked) == Some(#[trigger] ("bytes="@ + number + "-"@)) && {
                    &&& parsed_u64(number) matches Some(from)
                    &&& {
                        let bytes = file.skip(from as int);
                        let length = Some(bytes.len() as u64);
                        &&& opened(asked, 206, report, length, Some(file.len() as u64)) matches Ok(
                            transfer,
                        )
                        &&& file_after(before, transfer, bytes) == file
                        &&& is_complete(advanced(transfer, bytes.len() as u64))
                        &&& transfer.total == Some(file.len() as u64)
                    }
                }
        }),
{
    let number = decimal(kept as nat);
    law_decimal_round_trip(kept);
    let before = file.take(kept as int);
    let bytes = file.skip(kept as int);
    assert(range_of(kept) == Some("bytes="@ + number + "-"@));
    let transfer = started(kept, 206, Some(bytes.len() as u64), Some(file.len() as u64));
    assert(before.take(kept as int) =~= before);
    assert(file_after(before, transfer, bytes) =~= file);
}

} // verus!
