//! Parsing the HTTP/1.1 head of a handshake request or response.

use vstd::prelude::*;
use vstd::slice::slice_to_vec;
use crate::result::WebSocketError;

verus! {

/// The index of the first CRLF at or after `i`, or -1 when there is none.
pub open spec fn next_crlf(s: Seq<u8>, i: int) -> int
    decreases s.len() - i,
{
    if i < 0 || i + 1 >= s.len() {
        -1
    } else if s[i] == 13 && s[i + 1] == 10 {
        i
    } else {
        next_crlf(s, i + 1)
    }
}

/// The index of the first `b` at or after `i`, or the length when there is none.
pub open spec fn next_byte(s: Seq<u8>, b: u8, i: int) -> int
    decreases s.len() - i,
{
    if i < 0 || i >= s.len() {
        s.len() as int
    } else if s[i] == b {
        i
    } else {
        next_byte(s, b, i + 1)
    }
}

/// The lines of a head from `pos` on, up to the empty line that ends it, with
/// the index just past that empty line; `None` when the input ends first.
pub open spec fn head_lines(s: Seq<u8>, pos: int) -> Option<(Seq<Seq<u8>>, int)>
    decreases s.len() - pos,
{
    let p = next_crlf(s, pos);
    if pos < 0 || p < pos || p + 2 > s.len() {
        None
    } else if p == pos {
        Some((seq![], pos + 2))
    } else {
        match head_lines(s, p + 2) {
            Some((ls, n)) => Some((seq![s.subrange(pos, p)] + ls, n)),
            None => None,
        }
    }
}

/// Optional whitespace: space or horizontal tab.
pub open spec fn is_ows(b: u8) -> bool {
    b == 32 || b == 9
}

pub open spec fn trim_start(s: Seq<u8>) -> Seq<u8>
    decreases s.len(),
{
    if s.len() > 0 && is_ows(s[0]) {
        trim_start(s.drop_first())
    } else {
        s
    }
}

pub open spec fn trim_end(s: Seq<u8>) -> Seq<u8>
    decreases s.len(),
{
    if s.len() > 0 && is_ows(s.last()) {
        trim_end(s.drop_last())
    } else {
        s
    }
}

/// A byte sequence without its leading and trailing whitespace.
pub open spec fn trim(s: Seq<u8>) -> Seq<u8> {
    trim_end(trim_start(s))
}

/// The ASCII lower case of a byte.
pub open spec fn ascii_lower(b: u8) -> u8 {
    if 65 <= b <= 90 {
        (b + 32) as u8
    } else {
        b
    }
}

/// Equality up to ASCII case.
pub open spec fn eq_ignore_case(a: Seq<u8>, b: Seq<u8>) -> bool {
    a.len() == b.len() && forall|i: int| 0 <= i < a.len() ==> ascii_lower(#[trigger] a[i]) == ascii_lower(b[i])
}

/// Whether one of the comma-separated elements of `v` from `i` on is, once
/// trimmed, `token` up to ASCII case.
pub open spec fn has_token_from(v: Seq<u8>, token: Seq<u8>, i: int) -> bool
    decreases v.len() - i,
{
    if i < 0 || i > v.len() {
        false
    } else {
        let j = next_byte(v, 44, i);
        eq_ignore_case(trim(v.subrange(i, j)), token) || (i <= j < v.len() && has_token_from(
            v,
            token,
            j + 1,
        ))
    }
}

/// Whether a comma-separated header value holds `token`, up to ASCII case.
pub open spec fn has_token(v: Seq<u8>, token: Seq<u8>) -> bool {
    has_token_from(v, token, 0)
}

/// A header field of a head: the name, and the value without surrounding
/// whitespace.
pub struct HeaderField {
    pub name: Vec<u8>,
    pub value: Vec<u8>,
}

/// The name and value of a header line: the name runs up to the first colon,
/// and the value is what follows it, trimmed.
pub open spec fn spec_parse_field(line: Seq<u8>) -> Option<(Seq<u8>, Seq<u8>)> {
    let c = next_byte(line, 58, 0);
    if 0 < c < line.len() {
        Some((line.subrange(0, c), trim(line.subrange(c + 1, line.len() as int))))
    } else {
        None
    }
}

pub open spec fn field_view(f: HeaderField) -> (Seq<u8>, Seq<u8>) {
    (f.name@, f.value@)
}

pub open spec fn fields_view(fs: Seq<HeaderField>) -> Seq<(Seq<u8>, Seq<u8>)> {
    fs.map_values(|f: HeaderField| field_view(f))
}

/// The header fields of the given header lines, if each of them is one.
pub open spec fn spec_parse_fields(lines: Seq<Seq<u8>>) -> Option<Seq<(Seq<u8>, Seq<u8>)>>
    decreases lines.len(),
{
    if lines.len() == 0 {
        Some(seq![])
    } else {
        match (spec_parse_fields(lines.drop_last()), spec_parse_field(lines.last())) {
            (Some(fs), Some(f)) => Some(fs.push(f)),
            _ => None,
        }
    }
}

/// The index of the first CRLF at or after `from`, if any.
pub fn find_crlf(s: &[u8], from: usize) -> (r: Option<usize>)
    ensures
        match r {
            Some(p) => next_crlf(s@, from as int) == p as int && p >= from && p + 1 < s@.len(),
            None => next_crlf(s@, from as int) == -1,
        },
{
    let mut i = from;
    while s.len() > 0 && i < s.len() - 1
        invariant
            from <= i,
            next_crlf(s@, from as int) == next_crlf(s@, i as int),
        decreases s@.len() - i,
    {
        if s[i] == 13 && s[i + 1] == 10 {
            return Some(i);
        }
        i += 1;
    }
    None
}

/// The index of the first `b` at or after `from`, or the length.
pub fn find_byte(s: &[u8], b: u8, from: usize) -> (r: usize)
    requires
        from <= s@.len(),
    ensures
        r == next_byte(s@, b, from as int),
        from <= r <= s@.len(),
{
    let mut i = from;
    while i < s.len()
        invariant
            from <= i <= s@.len(),
            next_byte(s@, b, from as int) == next_byte(s@, b, i as int),
        decreases s@.len() - i,
    {
        if s[i] == b {
            return i;
        }
        i += 1;
    }
    i
}

/// A copy of `s` without its leading and trailing whitespace.
pub fn trim_bytes(s: &[u8]) -> (r: Vec<u8>)
    ensures
        r@ == trim(s@),
{
    let mut a: usize = 0;
    assert(s@.subrange(0, s@.len() as int) =~= s@);
    while a < s.len() && (s[a] == 32 || s[a] == 9)
        invariant
            a <= s@.len(),
            trim_start(s@) == trim_start(s@.subrange(a as int, s@.len() as int)),
        decreases s@.len() - a,
    {
        assert(s@.subrange(a as int, s@.len() as int).drop_first() =~= s@.subrange(a + 1, s@.len() as int));
        a += 1;
    }
    let ghost t = s@.subrange(a as int, s@.len() as int);
    assert(trim_start(t) == t);
    let mut b: usize = s.len();
    while b > a && (s[b - 1] == 32 || s[b - 1] == 9)
        invariant
            a <= b <= s@.len(),
            trim_end(t) == trim_end(s@.subrange(a as int, b as int)),
        decreases b,
    {
        assert(s@.subrange(a as int, b as int).drop_last() =~= s@.subrange(a as int, b - 1));
        b -= 1;
    }
    assert(trim_end(s@.subrange(a as int, b as int)) == s@.subrange(a as int, b as int));
    slice_to_vec(&s[a..b])
}

/// Whether two byte sequences are equal up to ASCII case.
pub fn bytes_eq_ignore_case(a: &[u8], b: &[u8]) -> (r: bool)
    ensures
        r == eq_ignore_case(a@, b@),
{
    if a.len() != b.len() {
        return false;
    }
    let mut i: usize = 0;
    while i < a.len()
        invariant
            a@.len() == b@.len(),
            i <= a@.len(),
            forall|j: int| 0 <= j < i ==> ascii_lower(#[trigger] a@[j]) == ascii_lower(b@[j]),
        decreases a@.len() - i,
    {
        let x = if 65 <= a[i] && a[i] <= 90 { a[i] + 32 } else { a[i] };
        let y = if 65 <= b[i] && b[i] <= 90 { b[i] + 32 } else { b[i] };
        if x != y {
            return false;
        }
        i += 1;
    }
    true
}

/// Whether a comma-separated header value holds `token`, up to ASCII case.
pub fn value_has_token(v: &[u8], token: &[u8]) -> (r: bool)
    ensures
        r == has_token(v@, token@),
{
    let mut i: usize = 0;
    loop
        invariant
            i <= v@.len(),
            has_token(v@, token@) == has_token_from(v@, token@, i as int),
        decreases v@.len() - i,
    {
        let j = find_byte(v, 44, i);
        let elem = trim_bytes(&v[i..j]);
        if bytes_eq_ignore_case(elem.as_slice(), token) {
            return true;
        }
        if j >= v.len() {
            return false;
        }
        i = j + 1;
    }
}

/// Splits the head at the start of `bytes` into its lines, returning them
/// with the number of bytes the head takes, its closing empty line included.
/// Input without that empty line gives `NoDataAvailable`.
pub fn split_head(bytes: &[u8]) -> (r: Result<(Vec<Vec<u8>>, usize), WebSocketError>)
    ensures
        match head_lines(bytes@, 0) {
            Some((ls, n)) => r matches Ok((v, m)) && v@.map_values(|l: Vec<u8>| l@) == ls && m == n,
            None => r matches Err(WebSocketError::NoDataAvailable),
        },
{
    let mut lines: Vec<Vec<u8>> = Vec::new();
    let mut pos: usize = 0;
    loop
        invariant
            pos <= bytes@.len() + 2,
            match head_lines(bytes@, pos as int) {
                Some((ls, n)) => head_lines(bytes@, 0) == Some(
                    (lines@.map_values(|l: Vec<u8>| l@) + ls, n),
                ),
                None => head_lines(bytes@, 0) is None,
            },
        decreases bytes@.len() + 2 - pos,
    {
        let p = match find_crlf(bytes, pos) {
            Some(p) => p,
            None => return Err(WebSocketError::NoDataAvailable),
        };
        let len = bytes.len();
        assert(p + 1 < len);
        if p == pos {
            assert(lines@.map_values(|l: Vec<u8>| l@) + seq![] =~= lines@.map_values(|l: Vec<u8>| l@));
            return Ok((lines, pos + 2));
        }
        let line = slice_to_vec(&bytes[pos..p]);
        let ghost before = lines@.map_values(|l: Vec<u8>| l@);
        lines.push(line);
        proof {
            assert(lines@.map_values(|l: Vec<u8>| l@) =~= before.push(bytes@.subrange(pos as int, p as int)));
            match head_lines(bytes@, p + 2) {
                Some((ls, n)) => {
                    assert(before + (seq![bytes@.subrange(pos as int, p as int)] + ls) =~= before.push(
                        bytes@.subrange(pos as int, p as int),
                    ) + ls);
                },
                None => {},
            }
        }
        pos = p + 2;
    }
}

/// Parses a header line into its name and trimmed value.
pub fn parse_field(line: &[u8]) -> (r: Option<HeaderField>)
    ensures
        match spec_parse_field(line@) {
            Some(f) => r matches Some(h) && field_view(h) == f,
            None => r is None,
        },
{
    let c = find_byte(line, 58, 0);
    if c == 0 || c >= line.len() {
        return None;
    }
    let name = slice_to_vec(&line[0..c]);
    let value = trim_bytes(&line[c + 1..line.len()]);
    Some(HeaderField { name, value })
}

/// Parses header lines into header fields.
pub fn parse_fields(lines: &Vec<Vec<u8>>) -> (r: Option<Vec<HeaderField>>)
    ensures
        match spec_parse_fields(lines@.map_values(|l: Vec<u8>| l@)) {
            Some(fs) => r matches Some(v) && fields_view(v@) == fs,
            None => r is None,
        },
{
    let ghost all = lines@.map_values(|l: Vec<u8>| l@);
    let mut fields: Vec<HeaderField> = Vec::new();
    let mut i: usize = 0;
    while i < lines.len()
        invariant
            i <= lines@.len(),
            all == lines@.map_values(|l: Vec<u8>| l@),
            spec_parse_fields(all.subrange(0, i as int)) == Some(fields_view(fields@)),
        decreases lines@.len() - i,
    {
        let ghost prefix = all.subrange(0, i + 1);
        assert(prefix.drop_last() =~= all.subrange(0, i as int));
        match parse_field(lines[i].as_slice()) {
            Some(f) => {
                let ghost before = fields_view(fields@);
                fields.push(f);
                assert(fields_view(fields@) =~= before.push(field_view(f)));
            },
            None => {
                assert(spec_parse_fields(prefix) is None);
                proof {
                    lemma_parse_fields_prefix_none(all, i as int + 1);
                }
                return None;
            },
        }
        i += 1;
    }
    assert(all.subrange(0, i as int) =~= all);
    Some(fields)
}

/// The value of the first field whose name is `name` up to ASCII case,
/// looking from field `i` on.
pub open spec fn field_value_from(fs: Seq<(Seq<u8>, Seq<u8>)>, name: Seq<u8>, i: int) -> Option<Seq<u8>>
    decreases fs.len() - i,
{
    if i < 0 || i >= fs.len() {
        None
    } else if eq_ignore_case(fs[i].0, name) {
        Some(fs[i].1)
    } else {
        field_value_from(fs, name, i + 1)
    }
}

/// The value of the first field whose name is `name` up to ASCII case.
pub open spec fn field_value(fs: Seq<(Seq<u8>, Seq<u8>)>, name: Seq<u8>) -> Option<Seq<u8>> {
    field_value_from(fs, name, 0)
}

/// The value of the first field named `name`, up to ASCII case.
pub fn find_field<'a>(fields: &'a Vec<HeaderField>, name: &[u8]) -> (r: Option<&'a Vec<u8>>)
    ensures
        match field_value(fields_view(fields@), name@) {
            Some(v) => r matches Some(x) && x@ == v,
            None => r is None,
        },
{
    let ghost fv = fields_view(fields@);
    let mut i: usize = 0;
    while i < fields.len()
        invariant
            i <= fields@.len(),
            fv == fields_view(fields@),
            field_value(fv, name@) == field_value_from(fv, name@, i as int),
        decreases fields@.len() - i,
    {
        if bytes_eq_ignore_case(fields[i].name.as_slice(), name) {
            return Some(&fields[i].value);
        }
        i += 1;
    }
    None
}

/// Whether two byte sequences are equal.
pub fn bytes_eq(a: &[u8], b: &[u8]) -> (r: bool)
    ensures
        r == (a@ == b@),
{
    if a.len() != b.len() {
        return false;
    }
    let mut i: usize = 0;
    while i < a.len()
        invariant
            a@.len() == b@.len(),
            i <= a@.len(),
            forall|j: int| 0 <= j < i ==> a@[j] == b@[j],
        decreases a@.len() - i,
    {
        if a[i] != b[i] {
            return false;
        }
        i += 1;
    }
    assert(a@ =~= b@);
    true
}

/// Appends bytes to `out`.
pub fn append_bytes(out: &mut Vec<u8>, s: &[u8])
    ensures
        final(out)@ == old(out)@ + s@,
{
    let mut v = slice_to_vec(s);
    out.append(&mut v);
}

/// The name of an element of a comma-separated list: what precedes its first
/// semicolon, trimmed.
pub open spec fn elem_name(e: Seq<u8>) -> Seq<u8> {
    trim(e.subrange(0, next_byte(e, 59, 0)))
}

/// Whether `names` holds `x`.
pub open spec fn contains_name(names: Seq<Seq<u8>>, x: Seq<u8>) -> bool {
    exists|k: int| 0 <= k < names.len() && names[k] == x
}

/// Whether the name of every comma-separated element of `v` from `i` on is
/// one of `names`.
pub open spec fn all_names_in_from(v: Seq<u8>, names: Seq<Seq<u8>>, i: int) -> bool
    decreases v.len() - i,
{
    if i < 0 || i > v.len() {
        true
    } else {
        let j = next_byte(v, 44, i);
        contains_name(names, elem_name(v.subrange(i, j))) && (i <= j < v.len() ==> all_names_in_from(
            v,
            names,
            j + 1,
        ))
    }
}

/// The name of the first comma-separated element of `v` from `i` on that is
/// one of `names`.
pub open spec fn first_name_in_from(v: Seq<u8>, names: Seq<Seq<u8>>, i: int) -> Option<Seq<u8>>
    decreases v.len() - i,
{
    if i < 0 || i > v.len() {
        None
    } else {
        let j = next_byte(v, 44, i);
        if contains_name(names, elem_name(v.subrange(i, j))) {
            Some(elem_name(v.subrange(i, j)))
        } else if i <= j < v.len() {
            first_name_in_from(v, names, j + 1)
        } else {
            None
        }
    }
}

pub open spec fn names_view(names: Seq<Vec<u8>>) -> Seq<Seq<u8>> {
    names.map_values(|n: Vec<u8>| n@)
}

/// The name of an element of a comma-separated list.
pub fn element_name(e: &[u8]) -> (r: Vec<u8>)
    ensures
        r@ == elem_name(e@),
{
    let k = find_byte(e, 59, 0);
    trim_bytes(&e[0..k])
}

/// Whether `names` holds `x`.
pub fn names_contain(names: &Vec<Vec<u8>>, x: &[u8]) -> (r: bool)
    ensures
        r == contains_name(names_view(names@), x@),
{
    let ghost nv = names_view(names@);
    let mut k: usize = 0;
    while k < names.len()
        invariant
            k <= names@.len(),
            nv == names_view(names@),
            forall|m: int| 0 <= m < k ==> nv[m] != x@,
        decreases names@.len() - k,
    {
        if bytes_eq(names[k].as_slice(), x) {
            assert(nv[k as int] == x@);
            return true;
        }
        k += 1;
    }
    false
}

/// Whether the name of every comma-separated element of `v` is one of `names`.
pub fn all_names_in(v: &[u8], names: &Vec<Vec<u8>>) -> (r: bool)
    ensures
        r == all_names_in_from(v@, names_view(names@), 0),
{
    let mut i: usize = 0;
    loop
        invariant
            i <= v@.len(),
            all_names_in_from(v@, names_view(names@), 0) == all_names_in_from(v@, names_view(names@), i as int),
        decreases v@.len() - i,
    {
        let j = find_byte(v, 44, i);
        let name = element_name(&v[i..j]);
        if !names_contain(names, name.as_slice()) {
            return false;
        }
        if j >= v.len() {
            return true;
        }
        i = j + 1;
    }
}

/// The name of the first comma-separated element of `v` that is one of
/// `names`.
pub fn first_name_in(v: &[u8], names: &Vec<Vec<u8>>) -> (r: Option<Vec<u8>>)
    ensures
        match first_name_in_from(v@, names_view(names@), 0) {
            Some(n) => r matches Some(x) && x@ == n,
            None => r is None,
        },
{
    let mut i: usize = 0;
    loop
        invariant
            i <= v@.len(),
            first_name_in_from(v@, names_view(names@), 0) == first_name_in_from(v@, names_view(names@), i as int),
        decreases v@.len() - i,
    {
        let j = find_byte(v, 44, i);
        let name = element_name(&v[i..j]);
        if names_contain(names, name.as_slice()) {
            return Some(name);
        }
        if j >= v.len() {
            return None;
        }
        i = j + 1;
    }
}

proof fn lemma_parse_fields_prefix_none(all: Seq<Seq<u8>>, k: int)
    requires
        0 <= k <= all.len(),
        spec_parse_fields(all.subrange(0, k)) is None,
    ensures
        spec_parse_fields(all) is None,
    decreases all.len() - k,
{
    if k < all.len() {
        assert(all.subrange(0, k + 1).drop_last() =~= all.subrange(0, k));
        lemma_parse_fields_prefix_none(all, k + 1);
    } else {
        assert(all.subrange(0, k) =~= all);
    }
}

} // verus!
