//! Pulling one named file out of a tar archive.
//!
//! Narrower than a tar reader on purpose: it compares the names in the archive
//! and never writes one. A name inside an archive is written by whoever made
//! the archive, and `../../` in one is how an extractor becomes a way to write
//! anywhere on the disk. This one has no such path to take, because the only
//! place the extracted bytes ever go is a path the program built itself.

use vstd::prelude::*;
use vstd::slice::{slice_subrange, slice_to_vec};
use crate::text::{chars_of, parse_octal, parse_unsigned, same_chars, trim, trim_chars};

verus! {

/// What `String::from_utf8_lossy` makes of some bytes.
pub uninterp spec fn utf8_lossy(bytes: Seq<u8>) -> Seq<char>;

/// `String::from_utf8_lossy`, which reads bytes as UTF-8 and puts U+FFFD in
/// place of anything that is not. Its documentation says that bytes which are
/// valid UTF-8 come back as exactly the text they encode; what a malformed
/// sequence turns into is left to the name.
#[verifier::external_body]
fn lossy_text(bytes: &[u8]) -> (s: String)
    ensures
        s@ == utf8_lossy(bytes@),
        vstd::utf8::valid_utf8(bytes@) ==> s@ == vstd::utf8::decode_utf8(bytes@),
{
    String::from_utf8_lossy(bytes).to_string()
}

/// The bytes before the first nul.
pub open spec fn before_nul(field: Seq<u8>) -> Seq<u8>
    decreases field.len(),
{
    if field.len() == 0 {
        field
    } else if field[0] == 0 {
        Seq::empty()
    } else {
        seq![field[0]] + before_nul(field.skip(1))
    }
}

/// A nul terminated text field of a tar header, as text, trimmed.
pub open spec fn text_of(header: Seq<u8>, at: int, len: int) -> Seq<char> {
    trim(utf8_lossy(before_nul(header.subrange(at, at + len))))
}

/// An octal number field of a tar header: nothing written is zero.
pub open spec fn octal_of(header: Seq<u8>, at: int, len: int) -> Option<nat> {
    let t = trim(text_of(header, at, len));
    if t.len() == 0 {
        Some(0)
    } else {
        parse_unsigned(t, 8, usize::MAX as nat)
    }
}

/// `size` rounded up to a whole number of 512 byte blocks.
pub open spec fn padded(size: nat) -> nat {
    ((size + 511) / 512) * 512
}

/// The body of the first ordinary file called `want` at or after `at`, where
/// the archive can be read that far.
///
/// A block of zeros ends the archive. An entry whose size cannot be read, or
/// whose body runs past the end, ends the search with nothing; so does a
/// position past what a `usize` can hold.
pub open spec fn entry_from(archive: Seq<u8>, at: nat, want: Seq<char>) -> Option<Seq<u8>>
    decreases archive.len() - at,
{
    if at + 512 > archive.len() {
        None
    } else {
        let header = archive.subrange(at as int, at as int + 512);
        if forall|i: int| 0 <= i < 512 ==> header[i] == 0 {
            None
        } else {
            match octal_of(header, 124, 12) {
                None => None,
                Some(size) => {
                    let body = at + 512;
                    let end = body + size;
                    if end > usize::MAX || end > archive.len() {
                        None
                    } else if (header[156] == 48 || header[156] == 0) && text_of(header, 0, 100)
                        == want {
                        Some(archive.subrange(body as int, end as int))
                    } else {
                        let next = body + padded(size);
                        if next > usize::MAX || next + 512 > archive.len() {
                            None
                        } else {
                            entry_from(archive, next, want)
                        }
                    }
                },
            }
        }
    }
}

fn before_nul_of(field: &[u8]) -> (r: Vec<u8>)
    ensures
        r@ == before_nul(field@),
{
    let mut i: usize = 0;
    while i < field.len() && field[i] != 0
        invariant
            i <= field.len(),
            forall|k: int| 0 <= k < i ==> field@[k] != 0,
        decreases field.len() - i,
    {
        i += 1;
    }
    proof {
        lemma_before_nul(field@, i as int);
    }
    slice_to_vec(slice_subrange(field, 0, i))
}

proof fn lemma_before_nul(field: Seq<u8>, i: int)
    requires
        0 <= i <= field.len(),
        forall|k: int| 0 <= k < i ==> field[k] != 0,
        i == field.len() || field[i] == 0,
    ensures
        before_nul(field) == field.subrange(0, i),
    decreases field.len(),
{
    if field.len() > 0 && field[0] != 0 {
        lemma_before_nul(field.skip(1), i - 1);
        assert(field.subrange(0, i) =~= seq![field[0]] + field.skip(1).subrange(0, i - 1));
    } else if field.len() == 0 {
        assert(field.subrange(0, i) =~= field);
    } else {
        assert(field.subrange(0, i) =~= Seq::<u8>::empty());
    }
}

/// A nul terminated text field from a tar header.
pub fn text_field(header: &[u8], at: usize, len: usize) -> (s: Vec<char>)
    requires
        at + len <= header.len(),
    ensures
        s@ == text_of(header@, at as int, len as int),
{
    let field = slice_subrange(header, at, at + len);
    let cut = before_nul_of(field);
    let text = lossy_text(cut.as_slice());
    trim_chars(&chars_of(text.as_str()))
}

/// An octal number field from a tar header.
pub fn octal_field(header: &[u8], at: usize, len: usize) -> (r: Option<usize>)
    requires
        at + len <= header.len(),
    ensures
        r == (match octal_of(header@, at as int, len as int) {
            Some(v) => Some(v as usize),
            None => None,
        }),
{
    let text = trim_chars(&text_field(header, at, len));
    if text.len() == 0 {
        return Some(0);
    }
    parse_octal(&text)
}

fn all_zero(header: &[u8]) -> (r: bool)
    ensures
        r == forall|i: int| 0 <= i < header@.len() ==> header@[i] == 0,
{
    let mut i: usize = 0;
    while i < header.len()
        invariant
            i <= header.len(),
            forall|k: int| 0 <= k < i ==> header@[k] == 0,
        decreases header.len() - i,
    {
        if header[i] != 0 {
            return false;
        }
        i += 1;
    }
    true
}

/// Pull one named file out of a tar archive: the body of the first ordinary
/// file whose name is `want`.
pub fn entry_in_tar(archive: &[u8], want: &str) -> (r: Option<Vec<u8>>)
    ensures
        match r {
            Some(v) => entry_from(archive@, 0, want@) == Some(v@),
            None => entry_from(archive@, 0, want@) is None,
        },
{
    let wanted = chars_of(want);
    let mut at: usize = 0;
    while at <= archive.len() && archive.len() - at >= 512
        invariant
            entry_from(archive@, 0, want@) == entry_from(archive@, at as nat, want@),
            wanted@ == want@,
        decreases archive.len() - at,
    {
        let header = slice_subrange(archive, at, at + 512);
        proof {
            assert(header@ == archive@.subrange(at as int, at + 512));
        }
        if all_zero(header) {
            return None;
        }
        let name = text_field(header, 0, 100);
        let size = match octal_field(header, 124, 12) {
            Some(size) => size,
            None => {
                return None;
            },
        };
        let kind = header[156];
        let body = at + 512;
        let end = match body.checked_add(size) {
            Some(end) => end,
            None => {
                return None;
            },
        };
        if end > archive.len() {
            return None;
        }
        if (kind == 48 || kind == 0) && same_chars(&name, &wanted) {
            return Some(slice_to_vec(slice_subrange(archive, body, end)));
        }
        let blocks = size / 512 + if size % 512 == 0 {
            0
        } else {
            1
        };
        proof {
            assert(blocks == (size as nat + 511) / 512);
        }
        let step = match blocks.checked_mul(512) {
            Some(step) => step,
            None => {
                proof {
                    assert(padded(size as nat) > usize::MAX);
                }
                return None;
            },
        };
        let next = match body.checked_add(step) {
            Some(next) => next,
            None => {
                return None;
            },
        };
        if next > archive.len() || archive.len() - next < 512 {
            return None;
        }
        at = next;
    }
    None
}

/// Reading from a point in an archive does not depend on what came before
/// that point, as long as the whole archive fits in memory.
proof fn lemma_read_after(before: Seq<u8>, rest: Seq<u8>, at: nat, want: Seq<char>)
    requires
        before.len() + rest.len() <= usize::MAX,
    ensures
        entry_from(before + rest, before.len() + at, want) == entry_from(rest, at, want),
    decreases rest.len() - at,
{
    let whole = before + rest;
    let w = before.len() + at;
    if at + 512 <= rest.len() {
        let header = whole.subrange(w as int, w as int + 512);
        assert(header =~= rest.subrange(at as int, at as int + 512));
        match octal_of(header, 124, 12) {
            None => {},
            Some(size) => {
                let body = at + 512;
                let end = body + size;
                if end <= rest.len() {
                    assert(whole.subrange((w + 512) as int, (w + 512 + size) as int)
                        =~= rest.subrange(body as int, end as int));
                    let next = body + padded(size);
                    if next + 512 <= rest.len() {
                        lemma_read_after(before, rest, next, want);
                    }
                }
            },
        }
    }
}

/// A header block for an entry: 512 bytes, not all of them nought, whose
/// size field reads `size`.
pub open spec fn header_for(header: Seq<u8>, size: nat) -> bool {
    &&& header.len() == 512
    &&& exists|i: int| 0 <= i < 512 && header[i] != 0
    &&& octal_of(header, 124, 12) == Some(size)
}

/// An ordinary file named `want` is found where its header stands: what
/// comes back is exactly its body, whatever follows it.
pub proof fn a_file_is_found_where_its_header_stands(
    header: Seq<u8>,
    body: Seq<u8>,
    rest: Seq<u8>,
    want: Seq<char>,
)
    requires
        header_for(header, body.len()),
        header[156] == 48 || header[156] == 0,
        text_of(header, 0, 100) == want,
        header.len() + body.len() + rest.len() <= usize::MAX,
    ensures
        entry_from(header + body + rest, 0, want) == Some(body),
{
    let archive = header + body + rest;
    assert(archive.subrange(0, 512) =~= header);
    assert(archive.subrange(512, 512 + body.len() as int) =~= body);
}

/// Any other entry is stepped over whole: its body is padded out to a whole
/// number of 512 byte blocks, and reading goes on at the block after that,
/// exactly as if the archive began there.
pub proof fn another_entry_is_stepped_over_whole_blocks(
    header: Seq<u8>,
    body: Seq<u8>,
    padding: Seq<u8>,
    rest: Seq<u8>,
    want: Seq<char>,
)
    requires
        header_for(header, body.len()),
        !((header[156] == 48 || header[156] == 0) && text_of(header, 0, 100) == want),
        padding.len() < 512,
        (body.len() + padding.len()) % 512 == 0,
        header.len() + body.len() + padding.len() + rest.len() <= usize::MAX,
    ensures
        entry_from(header + body + padding + rest, 0, want) == entry_from(rest, 0, want),
{
    let before = header + body + padding;
    let archive = before + rest;
    assert(header + body + padding + rest =~= archive);
    assert(archive.subrange(0, 512) =~= header);
    assert(padded(body.len()) == body.len() + padding.len()) by (nonlinear_arith)
        requires
            padding.len() < 512,
            (body.len() + padding.len()) % 512 == 0,
    {
    }
    assert(before.len() == 512 + padded(body.len()));
    lemma_read_after(before, rest, 0, want);
    if rest.len() < 512 {
        assert(entry_from(rest, 0, want) is None);
    }
}

} // verus!
