//! XSPF playlists: the file locations their tracks name.
use vstd::prelude::*;
use crate::text::{chars_of, chars_eq, occurs_at, string_push, trim, trim_bounds};

verus! {

broadcast use vstd::string::group_string_axioms;

/// One node of a parsed XML document: its element name (empty for other nodes),
/// its text (for an element, the text of its first child where that is text), and
/// the position of its parent node.
#[derive(Clone, Debug)]
pub struct XmlNode {
    pub name: String,
    pub text: Option<String>,
    pub parent: Option<usize>,
}

/// The plain value of a node.
pub open spec fn node_view(n: XmlNode) -> (Seq<char>, Option<Seq<char>>, Option<usize>) {
    (n.name@, match n.text { Some(t) => Some(t@), None => None }, n.parent)
}

/// The plain values of a list of nodes.
pub open spec fn nodes_view(v: Seq<XmlNode>) -> Seq<(Seq<char>, Option<Seq<char>>, Option<usize>)> {
    Seq::new(v.len(), |i: int| node_view(v[i]))
}

/// What `roxmltree` makes of the given text: `None` where it is not well-formed XML,
/// else its nodes in document order (the root first), as `node_view` shows them.
pub uninterp spec fn xml_document_nodes(text: Seq<char>) -> Option<Seq<(Seq<char>, Option<Seq<char>>, Option<usize>)>>;

#[verifier::external_type_specification]
#[verifier::external_body]
pub struct ExXmlError(roxmltree::Error);

/// `roxmltree::Document::parse`, with the document's nodes listed in document order.
/// roxmltree numbers its nodes in that order (the root is node 0), so a parent's
/// `NodeId` is its position in the list.  The result is named by `xml_document_nodes`.
#[verifier::external_body]
fn parse_xml(text: &str) -> (res: Result<Vec<XmlNode>, roxmltree::Error>)
    ensures
        res is Ok <==> xml_document_nodes(text@) is Some,
        res matches Ok(v) ==> nodes_view(v@) == xml_document_nodes(text@).unwrap(),
{
    let doc = roxmltree::Document::parse(text)?;
    Ok(doc.descendants().map(|n| XmlNode {
        name: n.tag_name().name().to_string(),
        text: n.text().map(|t| t.to_string()),
        parent: n.parent().map(|p| p.id().get_usize()),
    }).collect())
}

/// Why a playlist could not be read.
#[derive(Clone, Copy, Debug, PartialEq, Eq, Structural)]
pub enum XspfError {
    /// The file is not well-formed XML.
    InvalidXml,
}

type NodeV = (Seq<char>, Option<Seq<char>>, Option<usize>);

/// Whether node `j` lies in the subtree of node `i` (following parents, which come first).
pub open spec fn in_subtree(nodes: Seq<NodeV>, j: int, i: int) -> bool
    decreases j,
{
    if j == i {
        true
    } else if 0 <= j < nodes.len() {
        match nodes[j].2 {
            Some(p) => if (p as int) < j { in_subtree(nodes, p as int, i) } else { false },
            None => false,
        }
    } else {
        false
    }
}

/// The first node at or after `j`, in document order, that lies in the subtree
/// of `i` and is named "location".
pub open spec fn first_location(nodes: Seq<NodeV>, i: int, j: int) -> Option<int>
    decreases nodes.len() - j,
{
    if j < 0 || j >= nodes.len() {
        None
    } else if in_subtree(nodes, j, i) && nodes[j].0 == "location"@ {
        Some(j)
    } else {
        first_location(nodes, i, j + 1)
    }
}

/// The location text of node `i`, if it is a "track" whose first "location" has text.
pub open spec fn track_location(nodes: Seq<NodeV>, i: int) -> Option<Seq<char>> {
    if nodes[i].0 == "track"@ {
        match first_location(nodes, i, i) {
            Some(k) => nodes[k].1,
            None => None,
        }
    } else {
        None
    }
}

/// The location texts of the tracks among the first `n` nodes, in document order.
pub open spec fn track_locations(nodes: Seq<NodeV>, n: int) -> Seq<Seq<char>>
    decreases n,
{
    if n <= 0 {
        Seq::empty()
    } else {
        let r = track_locations(nodes, n - 1);
        match track_location(nodes, n - 1) {
            Some(t) => r.push(t),
            None => r,
        }
    }
}

// ───────────────────────── percent escapes ─────────────────────────

/// The value of a hexadecimal digit (either case).
pub open spec fn hex_value(c: char) -> Option<nat> {
    if '0' <= c && c <= '9' {
        Some((c as u32 - '0' as u32) as nat)
    } else if 'a' <= c && c <= 'f' {
        Some((c as u32 - 'a' as u32 + 10) as nat)
    } else if 'A' <= c && c <= 'F' {
        Some((c as u32 - 'A' as u32 + 10) as nat)
    } else {
        None
    }
}

/// The byte that the escape "%XY" at position `i` of `s` stands for, if one stands there.
pub open spec fn escaped_byte(s: Seq<char>, i: int) -> Option<nat> {
    if 0 <= i && i + 2 < s.len() && s[i] == '%' {
        match (hex_value(s[i + 1]), hex_value(s[i + 2])) {
            (Some(h), Some(l)) => Some(h * 16 + l),
            _ => None,
        }
    } else {
        None
    }
}

/// How many bytes the UTF-8 sequence led by byte `b` has (0 where `b` cannot lead one).
pub open spec fn utf8_seq_len(b: nat) -> nat {
    if b < 0x80 {
        1
    } else if 0xC2 <= b && b < 0xE0 {
        2
    } else if 0xE0 <= b && b < 0xF0 {
        3
    } else if 0xF0 <= b && b < 0xF5 {
        4
    } else {
        0
    }
}

/// The bits that lead byte `b` of an `n`-byte sequence carries.
pub open spec fn lead_bits(b: nat, n: nat) -> nat {
    if n == 2 { (b - 0xC0) as nat } else if n == 3 { (b - 0xE0) as nat } else { (b - 0xF0) as nat }
}

/// `acc` followed by the six bits of each of the `k` escaped continuation bytes
/// (0x80 to 0xBF) from position `i`; `None` where one of them is missing.
pub open spec fn cont_value(s: Seq<char>, i: int, k: nat, acc: nat) -> Option<nat>
    decreases k,
{
    if k == 0 {
        Some(acc)
    } else {
        match escaped_byte(s, i) {
            Some(b) => if 0x80 <= b && b < 0xC0 {
                cont_value(s, i + 3, (k - 1) as nat, acc * 64 + (b - 0x80) as nat)
            } else {
                None
            },
            None => None,
        }
    }
}

/// Whether `u` is a Unicode scalar value (what a `char` may hold).
pub open spec fn is_scalar(u: nat) -> bool {
    u <= 0x10FFFF && !(0xD800 <= u && u <= 0xDFFF)
}

/// The smallest code point that needs `n` bytes in UTF-8.
pub open spec fn min_code(n: nat) -> nat {
    if n == 3 { 0x800 } else if n == 4 { 0x10000 } else { 0 }
}

/// The character that the escapes at position `i` of `s` encode in UTF-8, with the
/// number of bytes (escapes) it takes: one escape below 0x80, else a lead byte and
/// its continuation bytes, none of them missing, giving a scalar value in its
/// shortest form.
pub open spec fn escaped_char(s: Seq<char>, i: int) -> Option<(nat, nat)> {
    match escaped_byte(s, i) {
        None => None,
        Some(b) => {
            let n = utf8_seq_len(b);
            if n == 0 {
                None
            } else if n == 1 {
                Some((b, 1))
            } else {
                match cont_value(s, i + 3, (n - 1) as nat, lead_bits(b, n)) {
                    None => None,
                    Some(u) => if is_scalar(u) && u >= min_code(n) && i + 3 * n <= s.len() {
                        Some((u, n))
                    } else {
                        None
                    },
                }
            }
        }
    }
}

/// `s` from position `i` with its percent escapes decoded: where escapes encode a
/// character in UTF-8 they stand for it; any other '%' stays as it is.
pub open spec fn percent_decoded_from(s: Seq<char>, i: int) -> Seq<char>
    decreases s.len() - i,
{
    if i < 0 || i >= s.len() {
        Seq::empty()
    } else {
        match escaped_char(s, i) {
            Some((u, n)) => seq![u as char] + percent_decoded_from(s, i + 3 * n),
            None => seq![s[i]] + percent_decoded_from(s, i + 1),
        }
    }
}

/// `s` with its percent escapes decoded (see `percent_decoded_from`).
pub open spec fn percent_decoded(s: Seq<char>) -> Seq<char> {
    percent_decoded_from(s, 0)
}

/// The location with its "file://" or "file:" scheme removed; after "file://" the
/// path keeps its leading '/', as "file:///music/a.mp3" names "/music/a.mp3".
pub open spec fn strip_scheme(l: Seq<char>) -> Seq<char> {
    if occurs_at(l, "file://"@, 0) {
        l.skip(7)
    } else if occurs_at(l, "file:"@, 0) {
        l.skip(5)
    } else {
        l
    }
}

/// Whether `c` is an ASCII letter (a drive letter).
pub open spec fn is_ascii_letter(c: char) -> bool {
    ('a' <= c && c <= 'z') || ('A' <= c && c <= 'Z')
}

/// On Windows, "/C:..." (a drive letter after the '/', and more after the ':')
/// loses its first '/'.
pub open spec fn strip_drive_slash(p: Seq<char>, windows: bool) -> Seq<char> {
    if windows && p.len() > 3 && p[0] == '/' && is_ascii_letter(p[1]) && p[2] == ':' {
        p.drop_first()
    } else {
        p
    }
}

/// The file path a track location names: trimmed, without its URL scheme, and with
/// its percent escapes decoded.
pub open spec fn location_path(loc: Seq<char>, windows: bool) -> Seq<char> {
    percent_decoded(strip_drive_slash(strip_scheme(trim(loc)), windows))
}

proof fn lemma_strlits()
    ensures
        "file://"@ == seq!['f', 'i', 'l', 'e', ':', '/', '/'],
        "file:"@ == seq!['f', 'i', 'l', 'e', ':'],
{
    reveal_strlit("file://");
    reveal_strlit("file:");
}

/// `char::from_u32`: the character with code point `u`, or `None` where `u` is not a
/// Unicode scalar value (a surrogate, or above U+10FFFF), as std documents it.
#[verifier::external_body]
fn char_from_u32(u: u32) -> (res: Option<char>)
    ensures
        res == (if is_scalar(u as nat) { Some(u as char) } else { None }),
{
    char::from_u32(u)
}

fn hex_digit(c: char) -> (res: Option<u32>)
    ensures
        match res {
            Some(v) => hex_value(c) == Some(v as nat) && v < 16,
            None => hex_value(c) is None,
        },
{
    if '0' <= c && c <= '9' {
        Some(c as u32 - '0' as u32)
    } else if 'a' <= c && c <= 'f' {
        Some(c as u32 - 'a' as u32 + 10)
    } else if 'A' <= c && c <= 'F' {
        Some(c as u32 - 'A' as u32 + 10)
    } else {
        None
    }
}

/// The byte of the escape at `i` (see `escaped_byte`).
fn escaped_byte_at(cs: &Vec<char>, i: usize) -> (res: Option<u32>)
    ensures
        match res {
            Some(b) => escaped_byte(cs@, i as int) == Some(b as nat) && b < 256,
            None => escaped_byte(cs@, i as int) is None,
        },
{
    if i < cs.len() && cs.len() - i > 2 && cs[i] == '%' {
        match (hex_digit(cs[i + 1]), hex_digit(cs[i + 2])) {
            (Some(h), Some(l)) => Some(h * 16 + l),
            _ => None,
        }
    } else {
        None
    }
}

/// The six bits of the continuation byte escaped at `i`, if one is there.
fn cont_bits_at(cs: &Vec<char>, i: usize) -> (res: Option<u32>)
    ensures
        match res {
            Some(v) => v < 64 && escaped_byte(cs@, i as int) == Some((v + 0x80) as nat),
            None => !(escaped_byte(cs@, i as int) matches Some(b) && 0x80 <= b && b < 0xC0),
        },
{
    match escaped_byte_at(cs, i) {
        Some(b) => if 0x80 <= b && b < 0xC0 { Some(b - 0x80) } else { None },
        None => None,
    }
}

/// The character escaped at `i` and its number of escapes (see `escaped_char`).
fn escaped_char_at(cs: &Vec<char>, i: usize) -> (res: Option<(char, usize)>)
    requires
        i < cs@.len(),
    ensures
        match escaped_char(cs@, i as int) {
            Some((u, n)) => res == Some((u as char, n as usize)),
            None => res is None,
        },
{
    let ghost s = cs@;
    let b = match escaped_byte_at(cs, i) {
        None => return None,
        Some(b) => b,
    };
    let n: usize = if b < 0x80 { 1 } else if 0xC2 <= b && b < 0xE0 { 2 } else if 0xE0 <= b && b < 0xF0 { 3 } else if 0xF0 <= b && b < 0xF5 { 4 } else { 0 };
    assert(n as nat == utf8_seq_len(b as nat));
    if n == 0 {
        return None;
    }
    if n == 1 {
        return match char_from_u32(b) {
            Some(c) => Some((c, 1)),
            None => None,
        };
    }
    // i + 3 can overflow only where no escape follows
    if cs.len() - i < 6 {
        proof { reveal_with_fuel(cont_value, 2); }
        assert(escaped_byte(s, i + 3) is None);
        return None;
    }
    let lead: u32 = if n == 2 { b - 0xC0 } else if n == 3 { b - 0xE0 } else { b - 0xF0 };
    assert(lead as nat == lead_bits(b as nat, n as nat));
    let c1 = match cont_bits_at(cs, i + 3) {
        None => {
            proof { reveal_with_fuel(cont_value, 2); }
            return None;
        },
        Some(v) => v,
    };
    let mut u: u32 = lead * 64 + c1;
    proof { reveal_with_fuel(cont_value, 2); }
    assert(cont_value(s, i + 3, (n - 1) as nat, lead as nat) == cont_value(s, i + 6, (n - 2) as nat, u as nat));
    if n >= 3 {
        if cs.len() - i < 9 {
            assert(escaped_byte(s, i + 6) is None);
            return None;
        }
        let c2 = match cont_bits_at(cs, i + 6) {
            None => return None,
            Some(v) => v,
        };
        assert(cont_value(s, i + 6, (n - 2) as nat, u as nat) == cont_value(s, i + 9, (n - 3) as nat, (u * 64 + c2) as nat));
        u = u * 64 + c2;
        if n == 4 {
            if cs.len() - i < 12 {
                assert(escaped_byte(s, i + 9) is None);
                return None;
            }
            let c3 = match cont_bits_at(cs, i + 9) {
                None => return None,
                Some(v) => v,
            };
            assert(cont_value(s, i + 9, (n - 3) as nat, u as nat) == cont_value(s, i + 12, 0, (u * 64 + c3) as nat));
            u = u * 64 + c3;
        }
    }
    assert(cont_value(s, i + 3, (n - 1) as nat, lead as nat) == Some(u as nat));
    let least: u32 = if n == 3 { 0x800 } else if n == 4 { 0x10000 } else { 0 };
    if u < least || cs.len() - i < 3 * n {
        return None;
    }
    match char_from_u32(u) {
        Some(c) => Some((c, n)),
        None => None,
    }
}

/// Appends `percent_decoded(cs[from..to])`.
fn push_decoded(out: &mut String, cs: &Vec<char>, from: usize, to: usize)
    requires
        from <= to == cs@.len(),
    ensures
        final(out)@ == old(out)@ + percent_decoded_from(cs@, from as int),
{
    let mut i = from;
    while i < to
        invariant
            from <= i <= to == cs@.len(),
            old(out)@ + percent_decoded_from(cs@, from as int) == out@ + percent_decoded_from(cs@, i as int),
        decreases to - i,
    {
        let ghost o = out@;
        match escaped_char_at(cs, i) {
            Some((c, n)) => {
                string_push(out, c);
                assert(o + percent_decoded_from(cs@, i as int) =~= out@ + percent_decoded_from(cs@, i + 3 * n));
                i = i + 3 * n;
            },
            None => {
                string_push(out, cs[i]);
                assert(o + percent_decoded_from(cs@, i as int) =~= out@ + percent_decoded_from(cs@, i + 1));
                i = i + 1;
            },
        }
    }
}

fn ascii_letter(c: char) -> (res: bool)
    ensures
        res == is_ascii_letter(c),
{
    ('a' <= c && c <= 'z') || ('A' <= c && c <= 'Z')
}

/// The file path of a track location (see `location_path`); `windows` says whether
/// the player runs on Windows.
pub fn xspf_location_path(loc: &str, windows: bool) -> (res: String)
    ensures
        res@ == location_path(loc@, windows),
{
    proof { lemma_strlits(); }
    let cs = chars_of(loc);
    let (a, b) = trim_bounds(&cs, 0, cs.len());
    assert(cs@.subrange(0, cs@.len() as int) == cs@);
    let l = vec_range(&cs, a, b);
    let t2 = chars_of("file://");
    let t1 = chars_of("file:");
    let mut start: usize = 0;
    if crate::text::chars_occur_at(&l, &t2, 0) {
        start = 7;
    } else if crate::text::chars_occur_at(&l, &t1, 0) {
        start = 5;
    }
    let ghost p = l@.subrange(start as int, l@.len() as int);
    assert(p == strip_scheme(trim(loc@)));
    let n = l.len();
    let mut from = start;
    if windows && n - start > 3 && l[start] == '/' && ascii_letter(l[start + 1]) && l[start + 2] == ':' {
        from = start + 1;
        assert(p.drop_first() == l@.subrange(from as int, n as int));
    }
    let ghost q = l@.subrange(from as int, n as int);
    assert(q == strip_drive_slash(p, windows));
    let tail = vec_range(&l, from, n);
    let mut out = String::new();
    push_decoded(&mut out, &tail, 0, tail.len());
    assert(Seq::<char>::empty() + percent_decoded_from(tail@, 0) == percent_decoded(q));
    out
}

/// The characters `cs[a..b]` as a new vector.
fn vec_range(cs: &Vec<char>, a: usize, b: usize) -> (v: Vec<char>)
    requires
        a <= b <= cs@.len(),
    ensures
        v@ == cs@.subrange(a as int, b as int),
{
    let mut v: Vec<char> = Vec::new();
    let mut i = a;
    while i < b
        invariant
            a <= i <= b <= cs@.len(),
            v@ == cs@.subrange(a as int, i as int),
        decreases b - i,
    {
        v.push(cs[i]);
        assert(cs@.subrange(a as int, i + 1) == cs@.subrange(a as int, i as int).push(cs@[i as int]));
        i = i + 1;
    }
    v
}


fn node_in_subtree(nodes: &Vec<XmlNode>, j: usize, i: usize) -> (res: bool)
    ensures
        res == in_subtree(nodes_view(nodes@), j as int, i as int),
{
    let ghost v = nodes_view(nodes@);
    let mut cur = j;
    loop
        invariant
            v == nodes_view(nodes@),
            in_subtree(v, j as int, i as int) == in_subtree(v, cur as int, i as int),
        decreases cur,
    {
        if cur == i {
            return true;
        }
        if cur >= nodes.len() {
            return false;
        }
        assert(v[cur as int] == node_view(nodes@[cur as int]));
        match nodes[cur].parent {
            Some(p) => {
                if p < cur {
                    cur = p;
                } else {
                    return false;
                }
            },
            None => {
                return false;
            },
        }
    }
}

fn name_is(n: &XmlNode, name: &Vec<char>) -> (res: bool)
    ensures
        res == (n.name@ == name@),
{
    let c = chars_of(n.name.as_str());
    chars_eq(&c, name)
}

/// The location text of node `i` (see `track_location`).
fn node_track_location(nodes: &Vec<XmlNode>, i: usize) -> (res: Option<String>)
    requires
        i < nodes@.len(),
    ensures
        (match res { Some(t) => Some(t@), None => None }) == track_location(nodes_view(nodes@), i as int),
{
    let ghost v = nodes_view(nodes@);
    let track = chars_of("track");
    let location = chars_of("location");
    assert(v[i as int] == node_view(nodes@[i as int]));
    if !name_is(&nodes[i], &track) {
        return None;
    }
    let mut k = i;
    while k < nodes.len()
        invariant
            i <= k <= nodes@.len(),
            v == nodes_view(nodes@),
            location@ == "location"@,
            v[i as int].0 == "track"@,
            first_location(v, i as int, i as int) == first_location(v, i as int, k as int),
        decreases nodes@.len() - k,
    {
        assert(v[k as int] == node_view(nodes@[k as int]));
        if node_in_subtree(nodes, k, i) && name_is(&nodes[k], &location) {
            assert(first_location(v, i as int, k as int) == Some(k as int));
            return match &nodes[k].text {
                Some(t) => Some(t.clone()),
                None => None,
            };
        }
        k = k + 1;
    }
    None
}

/// The file paths an XSPF playlist's tracks name, in document order: for each
/// "track" element, the text of its first "location" element (if any), read by
/// `location_path`.  Fails where the text is not well-formed XML.
pub fn parse_xspf(content: &str, windows: bool) -> (res: Result<Vec<String>, XspfError>)
    ensures
        res is Err <==> xml_document_nodes(content@) is None,
        res matches Ok(v) ==> {
            let nodes = xml_document_nodes(content@).unwrap();
            let locs = track_locations(nodes, nodes.len() as int);
            &&& v@.len() == locs.len()
            &&& forall|k: int| 0 <= k < v@.len() ==> (#[trigger] v@[k])@ == location_path(locs[k], windows)
        },
{
    let nodes = match parse_xml(content) {
        Ok(n) => n,
        Err(_) => return Err(XspfError::InvalidXml),
    };
    let ghost v = nodes_view(nodes@);
    let mut out: Vec<String> = Vec::new();
    let mut i: usize = 0;
    while i < nodes.len()
        invariant
            i <= nodes@.len(),
            v == nodes_view(nodes@),
            out@.len() == track_locations(v, i as int).len(),
            forall|k: int| 0 <= k < out@.len() ==> (#[trigger] out@[k])@ == location_path(track_locations(v, i as int)[k], windows),
        decreases nodes@.len() - i,
    {
        match node_track_location(&nodes, i) {
            Some(loc) => {
                let path = xspf_location_path(loc.as_str(), windows);
                out.push(path);
            },
            None => {},
        }
        i = i + 1;
    }
    Ok(out)
}

} // verus!
