//! The header line printed above each run: the command on the left and,
//! above a run that starts on a cleared screen, the host name and the local
//! time pushed to the right edge of the terminal.
//!
//! The width of the terminal, the host name and the time are read by the
//! caller, who hands them over as a `Banner`.

use crate::text::{join_spaced, join_with_spaces, texts};
use vstd::prelude::*;
use vstd::utf8::encode_utf8;

verus! {

/// The form in which the local time is written, `YYYY-MM-DD HH:MM:SS`, in
/// the notation of `strftime`.
pub const STAMP_FORMAT: &'static str = "%Y-%m-%d %H:%M:%S";

/// The columns that a timestamp of that form takes.
pub const STAMP_WIDTH: usize = 19;

/// The columns that the `": "` between host name and timestamp takes.
pub const SEPARATOR_WIDTH: usize = 2;

/// What the right-hand field of a header is made from.
#[derive(Clone, Debug)]
pub struct Banner {
    /// The width of the terminal in columns; 0 where it is not known.
    pub width: u16,
    /// The name of the host.
    pub hostname: String,
    /// The local time, written in the form of `STAMP_FORMAT`.
    pub timestamp: String,
}

/// The banner behind a reference that may be absent.
pub open spec fn opt_banner(banner: Option<&Banner>) -> Option<Banner> {
    match banner {
        Some(b) => Some(*b),
        None => None,
    }
}

/// The number of bytes that a text takes in UTF-8. Widths are counted in
/// bytes, so a text with characters outside ASCII is padded too little.
pub open spec fn byte_len(s: Seq<char>) -> nat {
    encode_utf8(s).len()
}

/// `n` spaces.
pub open spec fn spaces(n: nat) -> Seq<char> {
    Seq::new(n, |i: int| ' ')
}

/// The number of spaces between the command and the right-hand field: what
/// is left of `width` after the command, the host name, the separator and a
/// timestamp, and 0 where nothing is left.
pub open spec fn padding(left: Seq<char>, width: int, hostname: Seq<char>) -> nat {
    let used = byte_len(left) + byte_len(hostname) + SEPARATOR_WIDTH + STAMP_WIDTH;
    if width > used {
        (width - used) as nat
    } else {
        0
    }
}

/// The header line, without its line end: the words joined by single spaces
/// and, where there is a banner, the padding, the host name, `": "` and the
/// timestamp.
pub open spec fn header_text(words: Seq<Seq<char>>, banner: Option<Banner>) -> Seq<char> {
    let left = join_spaced(words);
    match banner {
        None => left,
        Some(b) => left + spaces(padding(left, b.width as int, b.hostname@)) + b.hostname@
            + seq![':', ' '] + b.timestamp@,
    }
}

/// The width to lay the header out for: the columns reported, or 0 where
/// the terminal did not tell.
pub fn width_or_zero(columns: Option<u16>) -> (width: u16)
    ensures
        width == match columns {
            Some(c) => c,
            None => 0u16,
        },
{
    match columns {
        Some(c) => c,
        None => 0,
    }
}

/// The number of bytes of `s`.
fn bytes_of(s: &str) -> (n: usize)
    ensures
        n == byte_len(s@),
{
    s.as_bytes().len()
}

/// Appends `n` spaces to `line`.
fn pad(line: &mut String, n: usize)
    ensures
        final(line)@ == old(line)@ + spaces(n as nat),
{
    let mut i: usize = 0;
    assert(line@ =~= old(line)@ + spaces(0));
    while i < n
        invariant
            i <= n,
            line@ == old(line)@ + spaces(i as nat),
        decreases n - i,
    {
        line.append(" ");
        proof {
            reveal_strlit(" ");
            assert(line@ =~= old(line)@ + spaces((i + 1) as nat));
        }
        i += 1;
    }
}

/// Writes the header line for the words of a run. With a banner the host
/// name and the timestamp are pushed right by as many spaces as the width
/// leaves; where the width is unknown or too small they follow the command
/// directly.
pub fn header_line(words: &[String], banner: Option<&Banner>) -> (line: String)
    ensures
        line@ == header_text(texts(words@), opt_banner(banner)),
{
    let mut line = join_with_spaces(words);
    match banner {
        None => line,
        Some(b) => {
            let ghost left = line@;
            let used = bytes_of(line.as_str()).saturating_add(
                bytes_of(b.hostname.as_str()),
            ).saturating_add(SEPARATOR_WIDTH).saturating_add(STAMP_WIDTH);
            let gap = (b.width as usize).saturating_sub(used);
            assert(gap == padding(left, b.width as int, b.hostname@));
            pad(&mut line, gap);
            line.append(b.hostname.as_str());
            line.append(": ");
            proof {
                reveal_strlit(": ");
                assert(": "@ =~= seq![':', ' ']);
            }
            line.append(b.timestamp.as_str());
            line
        },
    }
}

} // verus!
