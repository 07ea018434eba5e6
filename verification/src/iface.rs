//! Network interfaces named by the user: reading the address listing and the
//! link listing that the system's `ip` tool prints, and choosing the address
//! or index to use.
use crate::net::IpAddress;
use crate::text::{
    before_char, contains, contains_exec, copy_range, find_char, find_char_from, is_white,
    lemma_find_char_span, lemma_skip_white_bounds, lemma_skip_word_span, parse_u32,
    parse_u32_exec, prefix_before, skip_white, skip_white_from, skip_word, skip_word_from,
    starts_with, starts_with_exec, trim, trimmed,
};
use vstd::prelude::*;

verus! {

/// The address family of a listing line: `inet` for IPv4, `inet6` for IPv6.
#[derive(Clone, Copy, Debug, PartialEq, Eq)]
pub enum AddrFamily {
    V4,
    V6,
}

/// An address as a listing line writes it, not yet parsed.
#[derive(Clone, Debug, PartialEq, Eq)]
pub struct AddressCandidate {
    pub family: AddrFamily,
    pub text: Vec<char>,
}

impl View for AddressCandidate {
    type V = (AddrFamily, Seq<char>);

    open spec fn view(&self) -> (AddrFamily, Seq<char>) {
        (self.family, self.text@)
    }
}

/// A listing line's address once parsed: `None` when its text is no address
/// of its family.
#[derive(Clone, Copy, Debug, PartialEq, Eq)]
pub struct ParsedCandidate {
    pub family: AddrFamily,
    pub addr: Option<IpAddress>,
}

pub open spec fn inet_tag() -> Seq<char> {
    seq!['i', 'n', 'e', 't', ' ']
}

pub open spec fn inet6_tag() -> Seq<char> {
    seq!['i', 'n', 'e', 't', '6', ' ']
}

pub open spec fn link_local_tag() -> Seq<char> {
    seq!['l', 'i', 'n', 'k', '-', 'l', 'o', 'c', 'a', 'l']
}

/// The second whitespace-separated word of `t`, if it has one.
pub open spec fn second_word(t: Seq<char>) -> Option<Seq<char>> {
    let a0 = skip_white(t, 0);
    let e0 = skip_word(t, a0);
    let a1 = skip_white(t, e0);
    if a1 < t.len() {
        Some(t.subrange(a1, skip_word(t, a1)))
    } else {
        None
    }
}

/// The address that one line of an address listing offers. The line, once
/// trimmed, must begin with `inet ` (IPv4) or `inet6 ` (IPv6) and have a second
/// word; the address is that word up to its first `/` (which starts the
/// prefix length).
pub open spec fn line_candidate(line: Seq<char>) -> Option<(AddrFamily, Seq<char>)> {
    let t = trim(line);
    if starts_with(t, inet_tag()) {
        match second_word(t) {
            Some(w) => Some((AddrFamily::V4, before_char(w, '/'))),
            None => None,
        }
    } else if starts_with(t, inet6_tag()) {
        match second_word(t) {
            Some(w) => Some((AddrFamily::V6, before_char(w, '/'))),
            None => None,
        }
    } else {
        None
    }
}

/// The addresses offered by the lines of `text` from position `i` on, in the
/// order of the lines; lines end at `\n`.
pub open spec fn candidates_from(text: Seq<char>, i: int) -> Seq<(AddrFamily, Seq<char>)>
    decreases text.len() - i,
{
    if i < 0 || i >= text.len() {
        Seq::empty()
    } else {
        let e = find_char(text, '\n', i);
        let here = match line_candidate(text.subrange(i, e)) {
            Some(c) => seq![c],
            None => Seq::empty(),
        };
        if i <= e < text.len() {
            here + candidates_from(text, e + 1)
        } else {
            here
        }
    }
}

/// The addresses that an address listing offers, line by line.
pub open spec fn address_candidates_spec(text: Seq<char>) -> Seq<(AddrFamily, Seq<char>)> {
    candidates_from(text, 0)
}

/// The second word of `t`, if it has one.
fn second_word_exec(t: &Vec<char>) -> (r: Option<Vec<char>>)
    ensures
        match r {
            Some(w) => second_word(t@) == Some(w@),
            None => second_word(t@) is None,
        },
{
    let a0 = skip_white_from(t, 0);
    let e0 = skip_word_from(t, a0);
    let a1 = skip_white_from(t, e0);
    if a1 < t.len() {
        let e1 = skip_word_from(t, a1);
        Some(copy_range(t, a1, e1))
    } else {
        None
    }
}

/// The address that one listing line offers.
fn line_candidate_exec(line: &Vec<char>) -> (r: Option<AddressCandidate>)
    ensures
        match r {
            Some(c) => line_candidate(line@) == Some(c@),
            None => line_candidate(line@) is None,
        },
{
    let t = trimmed(line);
    let inet = vec!['i', 'n', 'e', 't', ' '];
    let inet6 = vec!['i', 'n', 'e', 't', '6', ' '];
    assert(inet@ =~= inet_tag());
    assert(inet6@ =~= inet6_tag());
    let family = if starts_with_exec(&t, &inet) {
        AddrFamily::V4
    } else if starts_with_exec(&t, &inet6) {
        AddrFamily::V6
    } else {
        return None;
    };
    match second_word_exec(&t) {
        Some(w) => Some(AddressCandidate { family, text: prefix_before(&w, '/') }),
        None => None,
    }
}

/// The addresses that an address listing (`ip addr show dev NAME`) offers,
/// in the order of its lines.
pub fn address_candidates(text: &Vec<char>) -> (out: Vec<AddressCandidate>)
    ensures
        out@.len() == address_candidates_spec(text@).len(),
        forall|k: int| 0 <= k < out@.len() ==> #[trigger] out@[k]@ == address_candidates_spec(text@)[k],
{
    let mut out: Vec<AddressCandidate> = Vec::new();
    let mut i: usize = 0;
    while i < text.len()
        invariant
            i <= text.len(),
            out@.map_values(|c: AddressCandidate| c@) + candidates_from(text@, i as int)
                == candidates_from(text@, 0),
        decreases text.len() - i,
    {
        let e = find_char_from(text, '\n', i);
        let line = copy_range(text, i, e);
        let here = line_candidate_exec(&line);
        let ghost before = out@.map_values(|c: AddressCandidate| c@);
        match here {
            Some(c) => {
                out.push(c);
                assert(out@.map_values(|c: AddressCandidate| c@) =~= before + seq![c@]);
            },
            None => {},
        }
        let next = if e < text.len() {
            e + 1
        } else {
            text.len()
        };
        proof {
            let here_s = match line_candidate(text@.subrange(i as int, e as int)) {
                Some(c) => seq![c],
                None => Seq::<(AddrFamily, Seq<char>)>::empty(),
            };
            assert(out@.map_values(|c: AddressCandidate| c@) =~= before + here_s);
            if e < text.len() {
                assert(candidates_from(text@, i as int) == here_s + candidates_from(
                    text@,
                    e + 1,
                ));
            } else {
                assert(candidates_from(text@, i as int) == here_s);
                assert(candidates_from(text@, next as int) =~= Seq::<
                    (AddrFamily, Seq<char>),
                >::empty());
            }
            assert(before + here_s + candidates_from(text@, next as int) =~= before + (here_s
                + candidates_from(text@, next as int)));
        }
        i = next;
    }
    assert(candidates_from(text@, i as int) =~= Seq::<(AddrFamily, Seq<char>)>::empty());
    assert(out@.map_values(|c: AddressCandidate| c@) =~= candidates_from(text@, 0));
    proof {
        assert forall|k: int| 0 <= k < out@.len() implies #[trigger] out@[k]@
            == address_candidates_spec(text@)[k] by {
            assert(out@.map_values(|c: AddressCandidate| c@)[k] == out@[k]@);
        }
    }
    out
}

/// The IPv4 and the IPv6 address that the parsed lines give: for each family
/// the last line that parsed, where an IPv6 unicast link-local address counts
/// only when `allow_link_local`.
pub open spec fn pick_addresses(c: Seq<ParsedCandidate>, allow_link_local: bool) -> (
    Option<IpAddress>,
    Option<IpAddress>,
)
    decreases c.len(),
{
    if c.len() == 0 {
        (None, None)
    } else {
        let (v4, v6) = pick_addresses(c.drop_last(), allow_link_local);
        let last = c.last();
        match last.addr {
            None => (v4, v6),
            Some(a) => match last.family {
                AddrFamily::V4 => (Some(a), v6),
                AddrFamily::V6 => if !a.spec_is_unicast_link_local() || allow_link_local {
                    (v4, Some(a))
                } else {
                    (v4, v6)
                },
            },
        }
    }
}

/// The address of an interface named `name`, from its parsed listing lines:
/// the IPv4 address where `want_ipv4`, else the IPv6 address or, where there
/// is none, the IPv4 one. IPv6 link-local addresses count only when the name
/// mentions `link-local`.
pub open spec fn spec_select_interface_ip(
    c: Seq<ParsedCandidate>,
    name: Seq<char>,
    want_ipv4: bool,
) -> Option<IpAddress> {
    let (v4, v6) = pick_addresses(c, contains(name, link_local_tag()));
    if want_ipv4 {
        v4
    } else {
        match v6 {
            Some(a) => Some(a),
            None => v4,
        }
    }
}

/// Whether the interface name asks for link-local addresses.
pub fn mentions_link_local(name: &Vec<char>) -> (b: bool)
    ensures
        b == contains(name@, link_local_tag()),
{
    let tag = vec!['l', 'i', 'n', 'k', '-', 'l', 'o', 'c', 'a', 'l'];
    assert(tag@ =~= link_local_tag());
    contains_exec(name, &tag)
}

/// The address to use for the interface named `name`, from the parsed lines
/// of its address listing.
pub fn select_interface_ip(cands: &Vec<ParsedCandidate>, name: &Vec<char>, want_ipv4: bool) -> (r:
    Option<IpAddress>)
    ensures
        r == spec_select_interface_ip(cands@, name@, want_ipv4),
{
    let allow = mentions_link_local(name);
    let mut v4: Option<IpAddress> = None;
    let mut v6: Option<IpAddress> = None;
    let mut i: usize = 0;
    while i < cands.len()
        invariant
            i <= cands.len(),
            allow == contains(name@, link_local_tag()),
            (v4, v6) == pick_addresses(cands@.subrange(0, i as int), allow),
        decreases cands.len() - i,
    {
        let c = cands[i];
        proof {
            let p = cands@.subrange(0, i + 1);
            assert(p.drop_last() =~= cands@.subrange(0, i as int));
            assert(p.last() == c);
        }
        match c.addr {
            None => {},
            Some(a) => match c.family {
                AddrFamily::V4 => {
                    v4 = Some(a);
                },
                AddrFamily::V6 => {
                    if !a.is_unicast_link_local() || allow {
                        v6 = Some(a);
                    }
                },
            },
        }
        i = i + 1;
    }
    assert(cands@.subrange(0, i as int) =~= cands@);
    if want_ipv4 {
        v4
    } else {
        match v6 {
            Some(a) => Some(a),
            None => v4,
        }
    }
}

/// The field of a link listing that holds the interface index: the first
/// line up to its first `:`.
pub open spec fn index_field(text: Seq<char>) -> Seq<char> {
    before_char(before_char(text, '\n'), ':')
}

/// The interface index that a link listing (`ip link show dev NAME`) gives:
/// the number that its first line holds before the first `:`, trimmed; 0
/// (every interface) where that is no `u32`.
pub open spec fn spec_interface_index(text: Seq<char>) -> u32 {
    match parse_u32(trim(index_field(text))) {
        Some(v) => v,
        None => 0,
    }
}

/// The interface index that a link listing gives, 0 where it gives none.
pub fn interface_index(text: &Vec<char>) -> (r: u32)
    ensures
        r == spec_interface_index(text@),
{
    let line = prefix_before(text, '\n');
    let field = prefix_before(&line, ':');
    let t = trimmed(&field);
    match parse_u32_exec(&t) {
        Some(v) => v,
        None => 0,
    }
}


/// Where the picked addresses come from: the IPv4 one from a parsed `inet`
/// line, the IPv6 one from a parsed `inet6` line that is no link-local address
/// unless those are allowed.
pub proof fn lemma_picked_from_lines(c: Seq<ParsedCandidate>, allow_link_local: bool)
    ensures
        pick_addresses(c, allow_link_local).0 matches Some(a) ==> exists|k: int|
            0 <= k < c.len() && #[trigger] c[k] == (ParsedCandidate { family: AddrFamily::V4, addr: Some(a) }),
        pick_addresses(c, allow_link_local).1 matches Some(a) ==> (allow_link_local
            || !a.spec_is_unicast_link_local()) && exists|k: int|
            0 <= k < c.len() && #[trigger] c[k] == (ParsedCandidate { family: AddrFamily::V6, addr: Some(a) }),
    decreases c.len(),
{
    if c.len() > 0 {
        let d = c.drop_last();
        lemma_picked_from_lines(d, allow_link_local);
        if let Some(a) = pick_addresses(d, allow_link_local).0 {
            let k = choose|k: int| 0 <= k < d.len() && #[trigger] d[k] == (ParsedCandidate { family: AddrFamily::V4, addr: Some(a) });
            assert(c[k] == d[k]);
        }
        if let Some(a) = pick_addresses(d, allow_link_local).1 {
            let k = choose|k: int| 0 <= k < d.len() && #[trigger] d[k] == (ParsedCandidate { family: AddrFamily::V6, addr: Some(a) });
            assert(c[k] == d[k]);
        }
        assert(c[c.len() - 1] == c.last());
    }
}

/// The address chosen for an interface is one that a line of its listing
/// gave; where an IPv4 address is asked for, it comes from an `inet` line.
pub proof fn lemma_selected_from_lines(c: Seq<ParsedCandidate>, name: Seq<char>, want_ipv4: bool)
    ensures
        spec_select_interface_ip(c, name, want_ipv4) matches Some(a) ==> exists|k: int|
            0 <= k < c.len() && (#[trigger] c[k]).addr == Some(a) && (want_ipv4 ==> c[k].family == AddrFamily::V4),
{
    lemma_picked_from_lines(c, contains(name, link_local_tag()));
}


/// Whether `w` is a single token of an address: no whitespace, no `/`.
pub open spec fn is_token(w: Seq<char>) -> bool {
    forall|j: int| 0 <= j < w.len() ==> !is_white(#[trigger] w[j]) && w[j] != '/'
}

proof fn lemma_line_candidate_token(line: Seq<char>)
    ensures
        line_candidate(line) matches Some((f, w)) ==> is_token(w),
{
    let t = trim(line);
    let a0 = skip_white(t, 0);
    lemma_skip_white_bounds(t, 0);
    let e0 = skip_word(t, a0);
    lemma_skip_word_span(t, a0);
    let a1 = skip_white(t, e0);
    lemma_skip_white_bounds(t, e0);
    if a1 < t.len() {
        lemma_skip_word_span(t, a1);
        let w = t.subrange(a1, skip_word(t, a1));
        assert forall|j: int| 0 <= j < w.len() implies !is_white(#[trigger] w[j]) by {
            assert(w[j] == t[a1 + j]);
        }
        lemma_find_char_span(w, '/', 0);
        let b = before_char(w, '/');
        assert forall|j: int| 0 <= j < b.len() implies !is_white(#[trigger] b[j]) && b[j] != '/' by {
            assert(b[j] == w[j]);
        }
    }
}

/// Each address that a listing offers is a single token: it holds no
/// whitespace and no `/`.
pub proof fn lemma_candidates_are_tokens(text: Seq<char>, i: int)
    ensures
        forall|k: int| 0 <= k < candidates_from(text, i).len() ==> is_token(#[trigger] candidates_from(text, i)[k].1),
    decreases text.len() - i,
{
    if 0 <= i < text.len() {
        let e = find_char(text, '\n', i);
        lemma_find_char_span(text, '\n', i);
        lemma_line_candidate_token(text.subrange(i, e));
        let here = match line_candidate(text.subrange(i, e)) {
            Some(c) => seq![c],
            None => Seq::<(AddrFamily, Seq<char>)>::empty(),
        };
        if e < text.len() {
            lemma_candidates_are_tokens(text, e + 1);
            let rest = candidates_from(text, e + 1);
            assert forall|k: int| 0 <= k < candidates_from(text, i).len() implies is_token(#[trigger] candidates_from(text, i)[k].1) by {
                if k >= here.len() {
                    assert(candidates_from(text, i)[k] == rest[k - here.len()]);
                }
            }
        }
    }
}


proof fn lemma_find_char_shift(p: Seq<char>, q: Seq<char>, c: char, j: int)
    requires
        0 <= j,
    ensures
        find_char(p + q, c, p.len() + j) == p.len() + find_char(q, c, j),
    decreases q.len() - j,
{
    if j < q.len() {
        assert((p + q)[p.len() + j] == q[j]);
        if q[j] != c {
            lemma_find_char_shift(p, q, c, j + 1);
        }
    }
}

proof fn lemma_find_char_prefix(a: Seq<char>, b: Seq<char>, c: char, i: int)
    requires
        0 <= i,
        find_char(a, c, i) < a.len(),
    ensures
        find_char(a + b, c, i) == find_char(a, c, i),
    decreases a.len() - i,
{
    if i < a.len() {
        assert((a + b)[i] == a[i]);
        if a[i] != c {
            lemma_find_char_prefix(a, b, c, i + 1);
        }
    }
}

proof fn lemma_find_newline_before_end(a: Seq<char>, i: int)
    requires
        0 <= i < a.len(),
        a.last() == '\n',
    ensures
        find_char(a, '\n', i) < a.len(),
    decreases a.len() - i,
{
    if a[i] != '\n' {
        if i + 1 < a.len() {
            lemma_find_newline_before_end(a, i + 1);
        }
    }
}

proof fn lemma_candidates_shift(p: Seq<char>, q: Seq<char>, j: int)
    requires
        0 <= j,
    ensures
        candidates_from(p + q, p.len() + j) == candidates_from(q, j),
    decreases q.len() - j,
{
    if j < q.len() {
        let t = p + q;
        lemma_find_char_shift(p, q, '\n', j);
        lemma_find_char_span(q, '\n', j);
        let e = find_char(q, '\n', j);
        assert(t.subrange(p.len() + j, p.len() + e) =~= q.subrange(j, e));
        if e < q.len() {
            lemma_candidates_shift(p, q, e + 1);
        }
    }
}

proof fn lemma_candidates_split(a: Seq<char>, b: Seq<char>, i: int)
    requires
        0 <= i <= a.len(),
        a.len() == 0 || a.last() == '\n',
    ensures
        candidates_from(a + b, i) == candidates_from(a, i) + candidates_from(b, 0),
    decreases a.len() - i,
{
    let t = a + b;
    if i == a.len() {
        lemma_candidates_shift(a, b, 0);
        assert(candidates_from(a, i) + candidates_from(b, 0) =~= candidates_from(b, 0));
    } else {
        lemma_find_newline_before_end(a, i);
        lemma_find_char_prefix(a, b, '\n', i);
        lemma_find_char_span(a, '\n', i);
        let e = find_char(a, '\n', i);
        assert(t.subrange(i, e) =~= a.subrange(i, e));
        lemma_candidates_split(a, b, e + 1);
        let here = match line_candidate(a.subrange(i, e)) {
            Some(c) => seq![c],
            None => Seq::<(AddrFamily, Seq<char>)>::empty(),
        };
        assert(candidates_from(t, i) == here + candidates_from(t, e + 1));
        assert(candidates_from(a, i) == here + candidates_from(a, e + 1));
        assert(here + (candidates_from(a, e + 1) + candidates_from(b, 0)) =~= (here
            + candidates_from(a, e + 1)) + candidates_from(b, 0));
    }
}

/// A listing is read line by line, each line on its own: the addresses of
/// two listings joined after a complete line are those of the first followed
/// by those of the second. So every `inet`/`inet6` line counts, not only the
/// first of its kind.
pub proof fn lemma_candidates_of_joined_listing(a: Seq<char>, b: Seq<char>)
    requires
        a.len() == 0 || a.last() == '\n',
    ensures
        address_candidates_spec(a + b) == address_candidates_spec(a) + address_candidates_spec(b),
{
    lemma_candidates_split(a, b, 0);
}

/// A single line, with or without its ending newline, offers exactly what
/// `line_candidate` reads from it: nothing, or one address.
pub proof fn lemma_candidates_of_one_line(line: Seq<char>)
    requires
        forall|k: int| 0 <= k < line.len() ==> #[trigger] line[k] != '\n',
    ensures
        address_candidates_spec(line) == (if line.len() == 0 {
            Seq::<(AddrFamily, Seq<char>)>::empty()
        } else {
            match line_candidate(line) {
                Some(c) => seq![c],
                None => Seq::<(AddrFamily, Seq<char>)>::empty(),
            }
        }),
        address_candidates_spec(line.push('\n')) == match line_candidate(line) {
            Some(c) => seq![c],
            None => Seq::<(AddrFamily, Seq<char>)>::empty(),
        },
{
    if line.len() > 0 {
        assert(find_char(line, '\n', line.len() as int) == line.len());
        lemma_find_char_no_newline(line, 0);
        assert(line.subrange(0, line.len() as int) =~= line);
    }
    let l = line.push('\n');
    lemma_find_char_no_newline_then(line, 0);
    assert(l.subrange(0, line.len() as int) =~= line);
    assert(candidates_from(l, line.len() + 1int) == Seq::<(AddrFamily, Seq<char>)>::empty());
    let here = match line_candidate(line) {
        Some(c) => seq![c],
        None => Seq::<(AddrFamily, Seq<char>)>::empty(),
    };
    assert(here + Seq::<(AddrFamily, Seq<char>)>::empty() =~= here);
}

proof fn lemma_find_char_no_newline(line: Seq<char>, i: int)
    requires
        0 <= i <= line.len(),
        forall|k: int| 0 <= k < line.len() ==> #[trigger] line[k] != '\n',
    ensures
        find_char(line, '\n', i) == line.len(),
    decreases line.len() - i,
{
    if i < line.len() {
        lemma_find_char_no_newline(line, i + 1);
    }
}

proof fn lemma_find_char_no_newline_then(line: Seq<char>, i: int)
    requires
        0 <= i <= line.len(),
        forall|k: int| 0 <= k < line.len() ==> #[trigger] line[k] != '\n',
    ensures
        find_char(line.push('\n'), '\n', i) == line.len(),
    decreases line.len() - i,
{
    let l = line.push('\n');
    if i < line.len() {
        assert(l[i] == line[i]);
        lemma_find_char_no_newline_then(line, i + 1);
    } else {
        assert(l[i] == '\n');
    }
}

} // verus!
