use vstd::prelude::*;
use vstd::utf8::*;

use crate::error::ImageError;

verus! {

/// Unicode scalar values that `char::is_whitespace` accepts (the `White_Space`
/// property): tab to carriage return, space, next line, no-break space, ogham
/// space mark, the spaces from en quad to hair space, line and paragraph
/// separators, narrow no-break space, medium mathematical space and
/// ideographic space.
pub open spec fn is_whitespace_scalar(s: u32) -> bool {
    ||| 0x09 <= s <= 0x0D
    ||| s == 0x20
    ||| s == 0x85
    ||| s == 0xA0
    ||| s == 0x1680
    ||| 0x2000 <= s <= 0x200A
    ||| s == 0x2028
    ||| s == 0x2029
    ||| s == 0x202F
    ||| s == 0x205F
    ||| s == 0x3000
}

/// ASCII upper-case letters made lower-case; every other scalar unchanged.
pub open spec fn ascii_lower(s: u32) -> u32 {
    if 0x41 <= s <= 0x5A {
        (s + 0x20) as u32
    } else {
        s
    }
}

/// ASCII upper-case letters made lower-case; every other byte unchanged.
pub open spec fn ascii_lower_byte(b: u8) -> u8 {
    if 0x41 <= b <= 0x5A {
        (b + 0x20) as u8
    } else {
        b
    }
}

/// The bytes with ASCII letters folded to lower case.
pub open spec fn folded_bytes(bytes: Seq<u8>) -> Seq<u8> {
    bytes.map_values(|b: u8| ascii_lower_byte(b))
}

/// The text that UTF-8 `bytes` encode, with every whitespace character left out
/// and letters folded to lower case, as scalar values.
///
/// Case is folded for ASCII letters only: the patterns that the text is
/// matched against are ASCII and contain neither `i` nor `k`, and no other
/// character lower-cases to one of their characters, so full Unicode
/// lower-casing finds exactly the same matches.
pub open spec fn folded_text(bytes: Seq<u8>) -> Seq<u32>
    decreases bytes.len(),
    when valid_utf8(bytes)
{
    if bytes.len() == 0 {
        seq![]
    } else {
        let s = decode_first_scalar(bytes);
        let rest = folded_text(pop_first_scalar(bytes));
        if is_whitespace_scalar(s) {
            rest
        } else {
            seq![ascii_lower(s)] + rest
        }
    }
}

/// `<?xml`
pub open spec fn xml_declaration() -> Seq<u32> {
    seq!['<' as u32, '?' as u32, 'x' as u32, 'm' as u32, 'l' as u32]
}

/// `<svg`
pub open spec fn svg_open() -> Seq<u32> {
    seq!['<' as u32, 's' as u32, 'v' as u32, 'g' as u32]
}

/// `<!doctype`
pub open spec fn doctype() -> Seq<u32> {
    seq![
        '<' as u32,
        '!' as u32,
        'd' as u32,
        'o' as u32,
        'c' as u32,
        't' as u32,
        'y' as u32,
        'p' as u32,
        'e' as u32,
    ]
}

/// `<svg` as bytes.
pub open spec fn svg_open_bytes() -> Seq<u8> {
    seq!['<' as u8, 's' as u8, 'v' as u8, 'g' as u8]
}

/// `s` begins with `p`.
pub open spec fn starts_with<T>(s: Seq<T>, p: Seq<T>) -> bool {
    p.len() <= s.len() && s.subrange(0, p.len() as int) == p
}

/// `p` occurs in `s` at index `i`.
pub open spec fn occurs_at<T>(s: Seq<T>, p: Seq<T>, i: int) -> bool {
    0 <= i && i + p.len() <= s.len() && s.subrange(i, i + p.len()) == p
}

/// `p` occurs somewhere in `s`.
pub open spec fn contains<T>(s: Seq<T>, p: Seq<T>) -> bool {
    exists|i: int| occurs_at(s, p, i)
}

/// Whitespace-free, case-folded text that opens like an SVG document: an XML
/// declaration or a doctype followed somewhere by `<svg`, or `<svg` itself.
pub open spec fn looks_like_svg(text: Seq<u32>) -> bool {
    ||| starts_with(text, xml_declaration()) && contains(text, svg_open())
    ||| starts_with(text, svg_open())
    ||| starts_with(text, doctype()) && contains(text, svg_open())
}

/// The part of a file that is sniffed: its first 1024 bytes.
pub open spec fn sniffed_prefix(bytes: Seq<u8>) -> Seq<u8> {
    bytes.subrange(0, if bytes.len() < 1024 { bytes.len() as int } else { 1024 })
}

/// A file is taken for SVG when it has at least 10 bytes, its first 1024
/// bytes are valid UTF-8, and their text, without whitespace and case-folded,
/// looks like the start of an SVG document.
pub open spec fn is_svg(bytes: Seq<u8>) -> bool {
    &&& bytes.len() >= 10
    &&& valid_utf8(sniffed_prefix(bytes))
    &&& looks_like_svg(folded_text(sniffed_prefix(bytes)))
}

/// Checks whether the first `len` bytes are valid UTF-8 with `std::str::from_utf8`.
///
/// Claimed: the result is `true` exactly when those bytes are a well-formed
/// UTF-8 encoding (no overlong form, no surrogate, nothing above U+10FFFF), as
/// `std::str::from_utf8` documents.
#[verifier::external_body]
fn utf8_prefix_is_valid(bytes: &[u8], len: usize) -> (r: bool)
    requires
        len <= bytes@.len(),
    ensures
        r == valid_utf8(bytes@.subrange(0, len as int)),
{
    std::str::from_utf8(&bytes[..len]).is_ok()
}

fn is_whitespace_value(s: u32) -> (r: bool)
    ensures
        r == is_whitespace_scalar(s),
{
    (0x09 <= s && s <= 0x0D) || s == 0x20 || s == 0x85 || s == 0xA0 || s == 0x1680 || (0x2000 <= s
        && s <= 0x200A) || s == 0x2028 || s == 0x2029 || s == 0x202F || s == 0x205F || s == 0x3000
}

/// The folded text of the first `n` bytes, which must be valid UTF-8.
fn fold_text(bytes: &[u8], n: usize) -> (out: Vec<u32>)
    requires
        n <= bytes@.len(),
        valid_utf8(bytes@.subrange(0, n as int)),
    ensures
        out@ == folded_text(bytes@.subrange(0, n as int)),
{
    let mut out: Vec<u32> = Vec::new();
    let mut i: usize = 0;
    assert(bytes@.subrange(0, n as int).subrange(0, n as int) =~= bytes@.subrange(0, n as int));
    while i < n
        invariant
            i <= n,
            n <= bytes@.len(),
            valid_utf8(bytes@.subrange(i as int, n as int)),
            folded_text(bytes@.subrange(0, n as int)) == out@ + folded_text(
                bytes@.subrange(i as int, n as int),
            ),
        decreases n - i,
    {
        let ghost t = bytes@.subrange(i as int, n as int);
        assert(valid_first_scalar(t));
        let b0 = bytes[i];
        assert(t[0] == b0);
        let (s, width): (u32, usize) = if b0 <= 0x7f {
            ((b0 & 0x7F) as u32, 1)
        } else if b0 <= 0xdf {
            let b1 = bytes[i + 1];
            assert(t[1] == b1);
            ((((b0 & 0x1F) as u32) << 6u32) | ((b1 & 0x3F) as u32), 2)
        } else if b0 <= 0xef {
            let b1 = bytes[i + 1];
            let b2 = bytes[i + 2];
            assert(t[1] == b1 && t[2] == b2);
            (
                (((b0 & 0x0F) as u32) << 12u32) | (((b1 & 0x3F) as u32) << 6u32) | ((b2
                    & 0x3F) as u32),
                3,
            )
        } else {
            let b1 = bytes[i + 1];
            let b2 = bytes[i + 2];
            let b3 = bytes[i + 3];
            assert(t[1] == b1 && t[2] == b2 && t[3] == b3);
            (
                (((b0 & 0x07) as u32) << 18u32) | (((b1 & 0x3F) as u32) << 12u32) | (((b2
                    & 0x3F) as u32) << 6u32) | ((b3 & 0x3F) as u32),
                4,
            )
        };
        assert(s == decode_first_scalar(t));
        assert(width == length_of_first_scalar(t));
        let ghost before = out@;
        if !is_whitespace_value(s) {
            let lowered = if 0x41 <= s && s <= 0x5A {
                s + 0x20
            } else {
                s
            };
            out.push(lowered);
        }
        proof {
            assert(pop_first_scalar(t) =~= bytes@.subrange(i + width, n as int));
            assert(folded_text(t) == (if is_whitespace_scalar(s) {
                seq![]
            } else {
                seq![ascii_lower(s)]
            }) + folded_text(pop_first_scalar(t)));
            if is_whitespace_scalar(s) {
                assert(folded_text(t) =~= folded_text(pop_first_scalar(t)));
            } else {
                assert(out@ =~= before.push(ascii_lower(s)));
                assert(before + folded_text(t) =~= out@ + folded_text(pop_first_scalar(t)));
            }
        }
        i = i + width;
    }
    assert(bytes@.subrange(n as int, n as int) =~= Seq::<u8>::empty());
    assert(out@ + Seq::<u32>::empty() =~= out@);
    out
}

/// Whether `p` occurs in `s` at index `i`.
fn occurs_at_exec(s: &Vec<u32>, p: &Vec<u32>, i: usize) -> (r: bool)
    ensures
        r == occurs_at(s@, p@, i as int),
{
    let n = s.len();
    if i > n || p.len() > n - i {
        return false;
    }
    let mut k: usize = 0;
    while k < p.len()
        invariant
            k <= p@.len(),
            n == s@.len(),
            i + p@.len() <= s@.len(),
            forall|j: int| 0 <= j < k ==> s@[i + j] == p@[j],
        decreases p@.len() - k,
    {
        if s[i + k] != p[k] {
            assert(s@.subrange(i as int, i + p@.len())[k as int] != p@[k as int]);
            return false;
        }
        k = k + 1;
    }
    assert(s@.subrange(i as int, i + p@.len()) =~= p@);
    true
}

/// Whether `p` occurs somewhere in `s`.
fn contains_exec(s: &Vec<u32>, p: &Vec<u32>) -> (r: bool)
    ensures
        r == contains(s@, p@),
{
    if p.len() > s.len() {
        return false;
    }
    let last = s.len() - p.len();
    let mut i: usize = 0;
    loop
        invariant
            i <= last,
            last == s@.len() - p@.len(),
            forall|j: int| 0 <= j < i ==> !#[trigger] occurs_at(s@, p@, j),
        ensures
            forall|j: int| 0 <= j <= last ==> !#[trigger] occurs_at(s@, p@, j),
        decreases last - i,
    {
        if occurs_at_exec(s, p, i) {
            return true;
        }
        if i == last {
            break;
        }
        i = i + 1;
    }
    assert forall|j: int| !#[trigger] occurs_at(s@, p@, j) by {
        if 0 <= j <= last {
        }
    }
    false
}

/// Whether `p` occurs somewhere in `bytes`, comparing case-folded bytes when `fold` holds.
fn contains_bytes(bytes: &[u8], p: &Vec<u8>, fold: bool) -> (r: bool)
    ensures
        r == contains(
            if fold {
                folded_bytes(bytes@)
            } else {
                bytes@
            },
            p@,
        ),
{
    let ghost s = if fold {
        folded_bytes(bytes@)
    } else {
        bytes@
    };
    if p.len() > bytes.len() {
        return false;
    }
    let last = bytes.len() - p.len();
    let n = bytes.len();
    let mut i: usize = 0;
    loop
        invariant
            i <= last,
            n == bytes@.len(),
            last == bytes@.len() - p@.len(),
            s.len() == bytes@.len(),
            forall|j: int|
                0 <= j < bytes@.len() ==> #[trigger] s[j] == if fold {
                    ascii_lower_byte(bytes@[j])
                } else {
                    bytes@[j]
                },
            forall|j: int| 0 <= j < i ==> !#[trigger] occurs_at(s, p@, j),
        ensures
            forall|j: int| 0 <= j <= last ==> !#[trigger] occurs_at(s, p@, j),
        decreases last - i,
    {
        let mut k: usize = 0;
        let mut matched = true;
        while k < p.len()
            invariant
                k <= p@.len(),
                n == bytes@.len(),
                i + p@.len() <= bytes@.len(),
                s.len() == bytes@.len(),
                forall|j: int|
                    0 <= j < bytes@.len() ==> #[trigger] s[j] == if fold {
                        ascii_lower_byte(bytes@[j])
                    } else {
                        bytes@[j]
                    },
                matched ==> forall|j: int| 0 <= j < k ==> s[i + j] == p@[j],
                !matched ==> !occurs_at(s, p@, i as int),
            decreases p@.len() - k,
        {
            let b = bytes[i + k];
            let c = if fold && 0x41 <= b && b <= 0x5A {
                b + 0x20
            } else {
                b
            };
            if c != p[k] {
                assert(s.subrange(i as int, i + p@.len())[k as int] != p@[k as int]);
                matched = false;
            }
            k = k + 1;
        }
        if matched {
            assert(s.subrange(i as int, i + p@.len()) =~= p@);
            assert(occurs_at(s, p@, i as int));
            assert(contains(s, p@));
            assert(s == (if fold {
                folded_bytes(bytes@)
            } else {
                bytes@
            }));
            return true;
        }
        if i == last {
            break;
        }
        i = i + 1;
    }
    assert forall|j: int| !#[trigger] occurs_at(s, p@, j) by {
        if 0 <= j <= last {
        }
    }
    false
}

/// Sniffs whether a file is SVG: at least 10 bytes, the first 1024 of them
/// valid UTF-8, and their text, without whitespace and case-folded, opening with
/// `<svg`, or with `<?xml` or `<!doctype` and holding `<svg` further on.
pub fn is_svg_bytes(bytes: &[u8]) -> (r: bool)
    ensures
        r == is_svg(bytes@),
{
    if bytes.len() < 10 {
        return false;
    }
    let n = if bytes.len() < 1024 {
        bytes.len()
    } else {
        1024
    };
    assert(bytes@.subrange(0, n as int) == sniffed_prefix(bytes@));
    if !utf8_prefix_is_valid(bytes, n) {
        return false;
    }
    let text = fold_text(bytes, n);
    let xml: Vec<u32> = vec![0x3C, 0x3F, 0x78, 0x6D, 0x6C];
    let svg: Vec<u32> = vec![0x3C, 0x73, 0x76, 0x67];
    let doc: Vec<u32> = vec![0x3C, 0x21, 0x64, 0x6F, 0x63, 0x74, 0x79, 0x70, 0x65];
    assert(xml@ =~= xml_declaration());
    assert(svg@ =~= svg_open());
    assert(doc@ =~= doctype());
    let starts_xml = occurs_at_exec(&text, &xml, 0);
    let starts_svg = occurs_at_exec(&text, &svg, 0);
    let starts_doc = occurs_at_exec(&text, &doc, 0);
    let has_svg = contains_exec(&text, &svg);
    (starts_xml && has_svg) || starts_svg || (starts_doc && has_svg)
}

/// The error that `validate_svg_content` reports, if any: not SVG by the sniff;
/// not valid UTF-8 as a whole; no `<svg` in any letter case; no lower-case `<svg`.
pub open spec fn svg_content_error(bytes: Seq<u8>) -> Option<ImageError> {
    if !is_svg(bytes) {
        Some(ImageError::NotSvg)
    } else if !valid_utf8(bytes) {
        Some(ImageError::InvalidUtf8)
    } else if !contains(folded_bytes(bytes), svg_open_bytes()) {
        Some(ImageError::MissingSvgElement)
    } else if !contains(bytes, svg_open_bytes()) {
        Some(ImageError::NoOpeningSvgTag)
    } else {
        None
    }
}

/// Checks that a file is SVG content worth handing to an SVG parser.
pub fn validate_svg_content(bytes: &[u8]) -> (r: Result<(), ImageError>)
    ensures
        match svg_content_error(bytes@) {
            Some(e) => r == Err::<(), ImageError>(e),
            None => r is Ok,
        },
{
    if !is_svg_bytes(bytes) {
        return Err(ImageError::NotSvg);
    }
    assert(bytes@.subrange(0, bytes@.len() as int) =~= bytes@);
    if !utf8_prefix_is_valid(bytes, bytes.len()) {
        return Err(ImageError::InvalidUtf8);
    }
    let svg: Vec<u8> = vec![0x3C, 0x73, 0x76, 0x67];
    assert(svg@ =~= svg_open_bytes());
    if !contains_bytes(bytes, &svg, true) {
        return Err(ImageError::MissingSvgElement);
    }
    if !contains_bytes(bytes, &svg, false) {
        return Err(ImageError::NoOpeningSvgTag);
    }
    Ok(())
}

/// No SVG verdict without an `<svg` tag: when a file is taken for SVG, the
/// whitespace-free, case-folded text of its first 1024 bytes holds the
/// characters `<`, `s`, `v`, `g` in a row.
pub proof fn lemma_svg_verdict_needs_svg_tag(bytes: Seq<u8>)
    requires
        is_svg(bytes),
    ensures
        exists|i: int|
            0 <= i && i + 4 <= folded_text(sniffed_prefix(bytes)).len() && #[trigger] folded_text(
                sniffed_prefix(bytes),
            )[i] == 0x3C && folded_text(sniffed_prefix(bytes))[i + 1] == 0x73 && folded_text(
                sniffed_prefix(bytes),
            )[i + 2] == 0x76 && folded_text(sniffed_prefix(bytes))[i + 3] == 0x67,
{
    let text = folded_text(sniffed_prefix(bytes));
    let tag = seq![0x3Cu32, 0x73u32, 0x76u32, 0x67u32];
    assert(svg_open() =~= tag);
    let i: int = if starts_with(text, svg_open()) {
        0
    } else {
        choose|i: int| occurs_at(text, svg_open(), i)
    };
    assert(occurs_at(text, svg_open(), i));
    assert(text.subrange(i, i + 4) == tag);
    assert(text.subrange(i, i + 4)[0] == text[i]);
    assert(text.subrange(i, i + 4)[1] == text[i + 1]);
    assert(text.subrange(i, i + 4)[2] == text[i + 2]);
    assert(text.subrange(i, i + 4)[3] == text[i + 3]);
}

/// Content that passes the SVG sniff, is valid UTF-8 as a whole, and holds the
/// lower-case bytes `<svg` somewhere (whatever follows them: a space, a line
/// break, `>`) is accepted by `validate_svg_content`.
pub proof fn lemma_lowercase_svg_tag_validates(bytes: Seq<u8>, i: int)
    requires
        is_svg(bytes),
        valid_utf8(bytes),
        0 <= i && i + 4 <= bytes.len(),
        bytes[i] == 0x3C && bytes[i + 1] == 0x73 && bytes[i + 2] == 0x76 && bytes[i + 3] == 0x67,
    ensures
        svg_content_error(bytes) is None,
{
    let tag = seq![0x3Cu8, 0x73u8, 0x76u8, 0x67u8];
    assert(svg_open_bytes() =~= tag);
    assert(bytes.subrange(i, i + 4) =~= tag);
    assert(occurs_at(bytes, svg_open_bytes(), i));
    let folded = folded_bytes(bytes);
    assert(folded.subrange(i, i + 4) =~= tag) by {
        assert(folded[i] == ascii_lower_byte(bytes[i]));
        assert(folded[i + 1] == ascii_lower_byte(bytes[i + 1]));
        assert(folded[i + 2] == ascii_lower_byte(bytes[i + 2]));
        assert(folded[i + 3] == ascii_lower_byte(bytes[i + 3]));
    }
    assert(occurs_at(folded, svg_open_bytes(), i));
}

/// `NoOpeningSvgTag` is reported only for content in which the lower-case
/// bytes `<svg` occur nowhere.
pub proof fn lemma_no_opening_tag_means_no_lowercase_tag(bytes: Seq<u8>)
    requires
        svg_content_error(bytes) == Some(ImageError::NoOpeningSvgTag),
    ensures
        forall|i: int|
            0 <= i && i + 4 <= bytes.len() ==> !(#[trigger] bytes[i] == 0x3C && bytes[i + 1] == 0x73
                && bytes[i + 2] == 0x76 && bytes[i + 3] == 0x67),
{
    assert forall|i: int| 0 <= i && i + 4 <= bytes.len() implies !(#[trigger] bytes[i] == 0x3C
        && bytes[i + 1] == 0x73 && bytes[i + 2] == 0x76 && bytes[i + 3] == 0x67) by {
        if bytes[i] == 0x3C && bytes[i + 1] == 0x73 && bytes[i + 2] == 0x76 && bytes[i + 3] == 0x67 {
            lemma_lowercase_svg_tag_validates(bytes, i);
        }
    }
}

} // verus!
