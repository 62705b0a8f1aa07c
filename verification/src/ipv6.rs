//! IPv6 addresses: eight 16-bit groups, read from colon-separated
//! hexadecimal text with one optional `::` and an optional trailing dotted
//! quad, and written in the shortest lower-case form.
use crate::address::{
    ipv4_of, ipv4_text, lemma_ipv4_round_trip, lemma_ipv4_text_fields, lemma_ipv4_text_unique,
    IpFamily, Ipv4Addr,
};
use crate::text::{
    hex_text, hex_u16, is_decimal_digit, is_hex_digit, lemma_decimal_text,
    lemma_hex_text, lemma_split_append, lemma_split_nonempty, lemma_split_single,
    parse_hex_group, push_hex, split, split_fields, view_each,
};
use vstd::prelude::*;

verus! {

/// An IPv6 address, as its eight groups in network order.
#[derive(Clone, Copy, PartialEq, Eq, Structural, Debug)]
pub struct Ipv6Addr {
    pub s0: u16,
    pub s1: u16,
    pub s2: u16,
    pub s3: u16,
    pub s4: u16,
    pub s5: u16,
    pub s6: u16,
    pub s7: u16,
}

/// The eight groups of an address.
pub open spec fn segments(a: Ipv6Addr) -> Seq<u16> {
    seq![a.s0, a.s1, a.s2, a.s3, a.s4, a.s5, a.s6, a.s7]
}

/// The address made of the first eight items of `g`.
pub open spec fn addr_of(g: Seq<u16>) -> Ipv6Addr {
    Ipv6Addr { s0: g[0], s1: g[1], s2: g[2], s3: g[3], s4: g[4], s5: g[5], s6: g[6], s7: g[7] }
}

/// `n` groups of zero.
pub open spec fn zeros(n: int) -> Seq<u16> {
    Seq::new(
        if n >= 0 {
            n as nat
        } else {
            0
        },
        |i: int| 0u16,
    )
}

/// The first two octets of a dotted quad as one group.
pub open spec fn high_group(a: Ipv4Addr) -> u16 {
    (a.a as int * 256 + a.b as int) as u16
}

/// The last two octets of a dotted quad as one group.
pub open spec fn low_group(a: Ipv4Addr) -> u16 {
    (a.c as int * 256 + a.d as int) as u16
}

/// The position of the first `::` at or after `from`.
pub open spec fn first_gap(s: Seq<char>, from: int) -> Option<int>
    decreases s.len() - from,
{
    if from < 0 || from + 1 >= s.len() {
        None
    } else if s[from] == ':' && s[from + 1] == ':' {
        Some(from)
    } else {
        first_gap(s, from + 1)
    }
}

/// The groups that a list of fields denotes. Every field is a hexadecimal
/// group of one to four digits; where `allow_v4` holds the last field may be
/// a dotted quad instead, which stands for two groups.
pub open spec fn fields_groups(f: Seq<Seq<char>>, allow_v4: bool) -> Option<Seq<u16>>
    decreases f.len(),
{
    if f.len() == 0 {
        Some(Seq::<u16>::empty())
    } else {
        match fields_groups(f.drop_last(), false) {
            None => None,
            Some(init) => match hex_u16(f.last()) {
                Some(g) => Some(init.push(g)),
                None => if allow_v4 {
                    match ipv4_of(f.last()) {
                        Some(a) => Some(init.push(high_group(a)).push(low_group(a))),
                        None => None,
                    }
                } else {
                    None
                },
            },
        }
    }
}

/// The groups that a colon-separated list denotes; the empty text denotes
/// no groups.
pub open spec fn groups_of(t: Seq<char>, allow_v4: bool) -> Option<Seq<u16>> {
    if t.len() == 0 {
        Some(Seq::<u16>::empty())
    } else {
        fields_groups(split(t, ':'), allow_v4)
    }
}

/// The IPv6 address that a text denotes. Without `::` the text lists all
/// eight groups. With `::` the groups before it open the address, the groups
/// after it close it, and at least one group of zero stands between them. A
/// dotted quad may stand for the last two groups.
pub open spec fn ipv6_of(s: Seq<char>) -> Option<Ipv6Addr> {
    match first_gap(s, 0) {
        None => match groups_of(s, true) {
            Some(g) => if g.len() == 8 {
                Some(addr_of(g))
            } else {
                None
            },
            None => None,
        },
        Some(i) => match (groups_of(s.take(i), false), groups_of(s.skip(i + 2), true)) {
            (Some(h), Some(t)) => if h.len() + t.len() <= 7 {
                Some(addr_of(h + zeros(8 - h.len() - t.len()) + t))
            } else {
                None
            },
            _ => None,
        },
    }
}

/// How many groups of zero follow one another from position `at` on.
pub open spec fn zero_run(g: Seq<u16>, at: int) -> nat
    decreases g.len() - at,
{
    if 0 <= at < g.len() && g[at] == 0 {
        1 + zero_run(g, at + 1)
    } else {
        0
    }
}

/// Where the longest run of zero groups starts among the positions below
/// `upto`; of several longest runs, the first.
pub open spec fn longest_run_start(g: Seq<u16>, upto: int) -> int
    decreases upto,
{
    if upto <= 1 {
        0
    } else {
        let best = longest_run_start(g, upto - 1);
        if zero_run(g, upto - 1) > zero_run(g, best) {
            upto - 1
        } else {
            best
        }
    }
}

/// The groups in lower-case hexadecimal without leading zeros, with colons
/// between them.
pub open spec fn hex_join(g: Seq<u16>) -> Seq<char>
    decreases g.len(),
{
    if g.len() == 0 {
        Seq::<char>::empty()
    } else if g.len() == 1 {
        hex_text(g[0] as nat)
    } else {
        hex_join(g.drop_last()) + seq![':'] + hex_text(g.last() as nat)
    }
}

/// Whether the address holds an IPv4 address in its last two groups behind
/// the prefix `::ffff`.
pub open spec fn is_v4_mapped(a: Ipv6Addr) -> bool {
    a.s0 == 0 && a.s1 == 0 && a.s2 == 0 && a.s3 == 0 && a.s4 == 0 && a.s5 == 0xffff
}

/// The IPv4 address in the last two groups.
pub open spec fn embedded_v4(a: Ipv6Addr) -> Ipv4Addr {
    Ipv4Addr {
        a: (a.s6 / 256) as u8,
        b: (a.s6 % 256) as u8,
        c: (a.s7 / 256) as u8,
        d: (a.s7 % 256) as u8,
    }
}

/// The canonical text of an IPv6 address. A mapped IPv4 address is written
/// as `::ffff:` and the dotted quad. Otherwise the longest run of two or more
/// zero groups, the first of them where several are longest, is written as
/// `::`, and the other groups in hexadecimal.
pub open spec fn ipv6_text(a: Ipv6Addr) -> Seq<char> {
    let g = segments(a);
    let start = longest_run_start(g, 8);
    let len = zero_run(g, start);
    if is_v4_mapped(a) {
        seq![':', ':', 'f', 'f', 'f', 'f', ':'] + ipv4_text(embedded_v4(a))
    } else if len > 1 {
        hex_join(g.take(start)) + seq![':', ':'] + hex_join(g.skip(start + len))
    } else {
        hex_join(g)
    }
}

/// Once a field before the last is no hexadecimal group, the list denotes
/// no groups.
pub proof fn lemma_fields_groups_prefix(f: Seq<Seq<char>>, k: int, allow_v4: bool)
    requires
        0 <= k < f.len(),
        fields_groups(f.take(k), false) is None,
    ensures
        fields_groups(f, allow_v4) is None,
    decreases f.len(),
{
    if k == f.len() - 1 {
        assert(f.take(k) =~= f.drop_last());
    } else {
        assert(f.drop_last().take(k) =~= f.take(k));
        lemma_fields_groups_prefix(f.drop_last(), k, false);
    }
}

/// Finds the first `::`.
pub fn find_gap(s: &[char]) -> (r: Option<usize>)
    ensures
        match r {
            Some(i) => first_gap(s@, 0) == Some(i as int) && i + 2 <= s.len(),
            None => first_gap(s@, 0) is None,
        },
{
    if s.len() < 2 {
        return None;
    }
    let mut i: usize = 0;
    while i < s.len() - 1
        invariant
            s.len() >= 2,
            i <= s.len() - 1,
            first_gap(s@, 0) == first_gap(s@, i as int),
        decreases s.len() - i,
    {
        if s[i] == ':' && s[i + 1] == ':' {
            return Some(i);
        }
        i = i + 1;
    }
    None
}

/// Reads a colon-separated list of groups.
pub fn parse_groups(t: &[char], allow_v4: bool) -> (r: Option<Vec<u16>>)
    ensures
        match r {
            Some(g) => groups_of(t@, allow_v4) == Some(g@),
            None => groups_of(t@, allow_v4) is None,
        },
{
    let mut groups: Vec<u16> = Vec::new();
    if t.len() == 0 {
        return Some(groups);
    }
    let fields = split_fields(t, ':');
    proof {
        lemma_split_nonempty(t@, ':');
    }
    let ghost f = view_each(fields@);
    let n = fields.len();
    let mut i: usize = 0;
    assert(f.take(0) =~= Seq::<Seq<char>>::empty());
    while i < n - 1
        invariant
            n == fields.len(),
            n >= 1,
            i <= n - 1,
            f == view_each(fields@),
            f == split(t@, ':'),
            fields_groups(f.take(i as int), false) == Some(groups@),
        decreases n - i,
    {
        proof {
            assert(f.take(i + 1).drop_last() =~= f.take(i as int));
            assert(f.take(i + 1).last() == fields[i as int]@);
        }
        match parse_hex_group(fields[i].as_slice()) {
            Some(g) => {
                groups.push(g);
            },
            None => {
                proof {
                    lemma_fields_groups_prefix(f, i + 1, allow_v4);
                }
                return None;
            },
        }
        i = i + 1;
    }
    proof {
        assert(f.drop_last() =~= f.take(n - 1));
        assert(f.last() == fields[n - 1]@);
    }
    match parse_hex_group(fields[n - 1].as_slice()) {
        Some(g) => {
            groups.push(g);
            Some(groups)
        },
        None => {
            if allow_v4 {
                match Ipv4Addr::from_chars(fields[n - 1].as_slice()) {
                    Some(a) => {
                        groups.push(a.a as u16 * 256 + a.b as u16);
                        groups.push(a.c as u16 * 256 + a.d as u16);
                        Some(groups)
                    },
                    None => None,
                }
            } else {
                None
            }
        },
    }
}

/// The run of zero groups that starts at `at`.
fn run_length(segs: &Vec<u16>, at: usize) -> (n: usize)
    requires
        segs.len() == 8,
        at < 8,
    ensures
        n as nat == zero_run(segs@, at as int),
        at + n <= 8,
{
    let mut j: usize = at;
    while j < 8 && segs[j] == 0
        invariant
            segs.len() == 8,
            at <= j <= 8,
            zero_run(segs@, at as int) == (j - at) + zero_run(segs@, j as int),
        decreases 8 - j,
    {
        j = j + 1;
    }
    j - at
}

/// Appends the groups `segs[from..to]` in hexadecimal, with colons between
/// them.
fn push_groups(out: &mut String, segs: &Vec<u16>, from: usize, to: usize)
    requires
        from <= to <= segs.len(),
    ensures
        final(out)@ == old(out)@ + hex_join(segs@.subrange(from as int, to as int)),
{
    let ghost start = out@;
    let mut j: usize = from;
    proof {
        assert(segs@.subrange(from as int, from as int) =~= Seq::<u16>::empty());
        assert(out@ =~= start + hex_join(segs@.subrange(from as int, j as int)));
    }
    while j < to
        invariant
            from <= j <= to <= segs.len(),
            out@ == start + hex_join(segs@.subrange(from as int, j as int)),
        decreases to - j,
    {
        let ghost before = segs@.subrange(from as int, j as int);
        let ghost after = segs@.subrange(from as int, j + 1);
        let ghost prev = out@;
        proof {
            assert(after.drop_last() =~= before);
            assert(after.last() == segs@[j as int]);
            assert(after[0] == segs@[from as int]);
        }
        if j > from {
            out.append(":");
        }
        let ghost mid = out@;
        push_hex(out, segs[j]);
        proof {
            reveal_strlit(":");
            assert(":"@ =~= seq![':']);
            if j > from {
                assert(out@ =~= start + hex_join(after));
            } else {
                assert(before =~= Seq::<u16>::empty());
                assert(out@ =~= start + hex_join(after));
            }
        }
        j = j + 1;
    }
}

impl Ipv6Addr {
    /// The groups of the address, in order.
    pub fn to_segments(&self) -> (v: Vec<u16>)
        ensures
            v@ == segments(*self),
    {
        let mut v: Vec<u16> = Vec::new();
        v.push(self.s0);
        v.push(self.s1);
        v.push(self.s2);
        v.push(self.s3);
        v.push(self.s4);
        v.push(self.s5);
        v.push(self.s6);
        v.push(self.s7);
        assert(v@ =~= segments(*self));
        v
    }

    /// The address with the given eight groups.
    pub fn from_segments(g: &Vec<u16>) -> (a: Self)
        requires
            g.len() == 8,
        ensures
            a == addr_of(g@),
            segments(a) == g@,
    {
        let a = Ipv6Addr {
            s0: g[0],
            s1: g[1],
            s2: g[2],
            s3: g[3],
            s4: g[4],
            s5: g[5],
            s6: g[6],
            s7: g[7],
        };
        assert(segments(a) =~= g@);
        a
    }
}

impl IpFamily for Ipv6Addr {
    open spec fn text(self) -> Seq<char> {
        ipv6_text(self)
    }

    open spec fn from_text(s: Seq<char>) -> Option<Self> {
        ipv6_of(s)
    }

    fn from_chars(s: &[char]) -> (r: Option<Self>)
        ensures
            r == ipv6_of(s@),
    {
        match find_gap(s) {
            None => match parse_groups(s, true) {
                Some(g) => {
                    if g.len() == 8 {
                        Some(Ipv6Addr::from_segments(&g))
                    } else {
                        None
                    }
                },
                None => None,
            },
            Some(i) => {
                let head = &s[0..i];
                let tail = &s[i + 2..s.len()];
                proof {
                    assert(head@ =~= s@.take(i as int));
                    assert(tail@ =~= s@.skip(i + 2));
                }
                let h = match parse_groups(head, false) {
                    Some(h) => h,
                    None => {
                        return None;
                    },
                };
                let t = match parse_groups(tail, true) {
                    Some(t) => t,
                    None => {
                        return None;
                    },
                };
                if h.len() > 7 || t.len() > 7 - h.len() {
                    return None;
                }
                let fill = 8 - h.len() - t.len();
                let mut g: Vec<u16> = Vec::new();
                let mut j: usize = 0;
                while j < h.len()
                    invariant
                        j <= h.len(),
                        g@ == h@.take(j as int),
                    decreases h.len() - j,
                {
                    g.push(h[j]);
                    assert(g@ =~= h@.take(j + 1));
                    j = j + 1;
                }
                assert(g@ =~= h@);
                j = 0;
                while j < fill
                    invariant
                        j <= fill,
                        g@ == h@ + zeros(j as int),
                    decreases fill - j,
                {
                    g.push(0);
                    assert(g@ =~= h@ + zeros(j + 1));
                    j = j + 1;
                }
                j = 0;
                while j < t.len()
                    invariant
                        j <= t.len(),
                        fill == 8 - h.len() - t.len(),
                        h.len() + t.len() <= 7,
                        g@ == h@ + zeros(fill as int) + t@.take(j as int),
                    decreases t.len() - j,
                {
                    g.push(t[j]);
                    assert(g@ =~= h@ + zeros(fill as int) + t@.take(j + 1));
                    j = j + 1;
                }
                assert(g@ =~= h@ + zeros(fill as int) + t@);
                Some(Ipv6Addr::from_segments(&g))
            },
        }
    }

    fn to_string(&self) -> (r: String)
        ensures
            r@ == ipv6_text(*self),
    {
        let segs = self.to_segments();
        let mut out = String::new();
        if self.s0 == 0 && self.s1 == 0 && self.s2 == 0 && self.s3 == 0 && self.s4 == 0 && self.s5
            == 0xffff {
            let v4 = Ipv4Addr {
                a: (self.s6 / 256) as u8,
                b: (self.s6 % 256) as u8,
                c: (self.s7 / 256) as u8,
                d: (self.s7 % 256) as u8,
            };
            out.append("::ffff:");
            let quad = v4.to_string();
            out.append(quad.as_str());
            proof {
                reveal_strlit("::ffff:");
                assert("::ffff:"@ =~= seq![':', ':', 'f', 'f', 'f', 'f', ':']);
                assert(out@ =~= ipv6_text(*self));
            }
            return out;
        }
        let mut best: usize = 0;
        let mut best_len: usize = run_length(&segs, 0);
        let mut i: usize = 1;
        while i < 8
            invariant
                segs.len() == 8,
                1 <= i <= 8,
                best < 8,
                best as int == longest_run_start(segs@, i as int),
                best_len as nat == zero_run(segs@, best as int),
                best + best_len <= 8,
            decreases 8 - i,
        {
            let len = run_length(&segs, i);
            if len > best_len {
                best = i;
                best_len = len;
            }
            i = i + 1;
        }
        if best_len > 1 {
            push_groups(&mut out, &segs, 0, best);
            out.append("::");
            push_groups(&mut out, &segs, best + best_len, 8);
            proof {
                reveal_strlit("::");
                assert("::"@ =~= seq![':', ':']);
                assert(segs@.subrange(0, best as int) =~= segs@.take(best as int));
                assert(segs@.subrange(best + best_len, 8) =~= segs@.skip(best + best_len));
                assert(out@ =~= ipv6_text(*self));
            }
        } else {
            push_groups(&mut out, &segs, 0, 8);
            proof {
                assert(segs@.subrange(0, 8) =~= segs@);
                assert(out@ =~= ipv6_text(*self));
            }
        }
        out
    }

    proof fn lemma_text(a: Self)
        ensures
            ipv6_of(ipv6_text(a)) == Some(a),
    {
        lemma_ipv6_round_trip(a);
        lemma_ipv6_text_has_no_slash(a);
        lemma_ipv6_text_has_colon(a);
    }
}

/// Whether no two colons stand side by side in the text.
pub open spec fn has_no_gap(s: Seq<char>) -> bool {
    forall|i: int| 0 <= i < s.len() - 1 ==> !(#[trigger] s[i] == ':' && s[i + 1] == ':')
}

/// The shape of a list of groups in hexadecimal: hexadecimal digits and
/// single colons, and a digit at either end.
pub proof fn lemma_hex_join_shape(g: Seq<u16>)
    ensures
        g.len() == 0 <==> hex_join(g).len() == 0,
        forall|i: int|
            0 <= i < hex_join(g).len() ==> is_hex_digit(#[trigger] hex_join(g)[i]) || hex_join(
                g,
            )[i] == ':',
        has_no_gap(hex_join(g)),
        g.len() > 0 ==> hex_join(g)[0] != ':' && hex_join(g)[hex_join(g).len() - 1] != ':',
    decreases g.len(),
{
    let t = hex_join(g);
    if g.len() == 0 {
    } else if g.len() == 1 {
        lemma_hex_text(g[0] as nat);
        assert forall|i: int| 0 <= i < t.len() implies is_hex_digit(#[trigger] t[i]) by {}
        assert(is_hex_digit(t[0]));
        assert(is_hex_digit(t[t.len() - 1]));
    } else {
        let p = hex_join(g.drop_last());
        let x = hex_text(g.last() as nat);
        lemma_hex_join_shape(g.drop_last());
        lemma_hex_text(g.last() as nat);
        assert(t =~= p + seq![':'] + x);
        assert forall|i: int| 0 <= i < t.len() implies is_hex_digit(#[trigger] t[i]) || t[i]
            == ':' by {
            if i < p.len() {
                assert(t[i] == p[i]);
            } else if i > p.len() {
                assert(t[i] == x[i - p.len() - 1]);
            }
        }
        assert(is_hex_digit(x[x.len() - 1]));
        assert(t[t.len() - 1] == x[x.len() - 1]);
        assert(t[0] == p[0]);
        assert forall|i: int| 0 <= i < t.len() - 1 implies !(#[trigger] t[i] == ':' && t[i + 1]
            == ':') by {
            if i + 1 < p.len() {
                assert(t[i] == p[i] && t[i + 1] == p[i + 1]);
            } else if i + 1 == p.len() {
                assert(t[i] == p[p.len() - 1]);
            } else if i == p.len() {
                assert(t[i + 1] == x[0]);
                assert(is_hex_digit(x[0]));
            } else {
                assert(t[i] == x[i - p.len() - 1]);
                assert(is_hex_digit(x[i - p.len() - 1]));
            }
        }
    }
}

/// A text without two colons side by side has no `::`.
pub proof fn lemma_first_gap_none(s: Seq<char>, from: int)
    requires
        0 <= from,
        has_no_gap(s),
    ensures
        first_gap(s, from) is None,
    decreases s.len() - from,
{
    if from + 1 < s.len() {
        assert(!(s[from] == ':' && s[from + 1] == ':'));
        lemma_first_gap_none(s, from + 1);
    }
}

/// The first `::` stands where two colons meet and none met before.
pub proof fn lemma_first_gap_at(s: Seq<char>, from: int, p: int)
    requires
        0 <= from <= p,
        p + 1 < s.len(),
        s[p] == ':' && s[p + 1] == ':',
        forall|i: int| from <= i < p ==> !(#[trigger] s[i] == ':' && s[i + 1] == ':'),
    ensures
        first_gap(s, from) == Some(p),
    decreases p - from,
{
    if from < p {
        assert(!(s[from] == ':' && s[from + 1] == ':'));
        lemma_first_gap_at(s, from + 1, p);
    }
}

/// A list of groups written in hexadecimal reads as the same groups.
pub proof fn lemma_groups_of_hex_join(g: Seq<u16>, allow_v4: bool)
    ensures
        groups_of(hex_join(g), allow_v4) == Some(g),
        g.len() > 0 ==> fields_groups(split(hex_join(g), ':'), allow_v4) == Some(g),
    decreases g.len(),
{
    let t = hex_join(g);
    lemma_hex_join_shape(g);
    if g.len() == 0 {
        assert(g =~= Seq::<u16>::empty());
    } else {
        let x = hex_text(g.last() as nat);
        lemma_hex_text(g.last() as nat);
        assert forall|i: int| 0 <= i < x.len() implies x[i] != ':' by {
            assert(is_hex_digit(x[i]));
        }
        if g.len() == 1 {
            lemma_split_single(x, ':');
            let f = seq![x];
            assert(f.drop_last() =~= Seq::<Seq<char>>::empty());
            assert(f.last() == x);
            assert(fields_groups(f.drop_last(), false) == Some(Seq::<u16>::empty()));
            assert(Seq::<u16>::empty().push(g[0]) =~= g);
        } else {
            let p = hex_join(g.drop_last());
            lemma_groups_of_hex_join(g.drop_last(), false);
            lemma_hex_join_shape(g.drop_last());
            lemma_split_append(p, x, ':');
            let f = split(p, ':').push(x);
            assert(t =~= p + seq![':'] + x);
            assert(f.drop_last() =~= split(p, ':'));
            assert(f.last() == x);
            assert(g.drop_last().push(g.last()) =~= g);
        }
    }
}

/// A run of zero groups lies within the address and holds only zeros.
pub proof fn lemma_zero_run(g: Seq<u16>, at: int)
    requires
        0 <= at <= g.len(),
    ensures
        at + zero_run(g, at) <= g.len(),
        forall|i: int| at <= i < at + zero_run(g, at) ==> #[trigger] g[i] == 0,
    decreases g.len() - at,
{
    if at < g.len() && g[at] == 0 {
        lemma_zero_run(g, at + 1);
    }
}

/// The longest run starts at one of the positions that were looked at.
pub proof fn lemma_longest_run_start(g: Seq<u16>, upto: int)
    requires
        1 <= upto,
    ensures
        0 <= longest_run_start(g, upto) < upto,
    decreases upto,
{
    if upto > 1 {
        lemma_longest_run_start(g, upto - 1);
    }
}

/// The text of an IPv6 address holds a colon.
pub proof fn lemma_ipv6_text_has_colon(a: Ipv6Addr)
    ensures
        exists|i: int| 0 <= i < ipv6_text(a).len() && ipv6_text(a)[i] == ':',
{
    let g = segments(a);
    let start = longest_run_start(g, 8);
    let len = zero_run(g, start);
    let t = ipv6_text(a);
    if is_v4_mapped(a) {
        assert(t[0] == ':');
    } else if len > 1 {
        let p = hex_join(g.take(start));
        assert(t[p.len() as int] == ':');
    } else {
        let p = hex_join(g.drop_last());
        assert(t =~= p + seq![':'] + hex_text(g.last() as nat));
        assert(t[p.len() as int] == ':');
    }
}

/// The text of an IPv6 address holds no slash.
pub proof fn lemma_ipv6_text_has_no_slash(a: Ipv6Addr)
    ensures
        forall|i: int| 0 <= i < ipv6_text(a).len() ==> #[trigger] ipv6_text(a)[i] != '/',
{
    let g = segments(a);
    let start = longest_run_start(g, 8);
    let len = zero_run(g, start);
    let t = ipv6_text(a);
    if is_v4_mapped(a) {
        let q = ipv4_text(embedded_v4(a));
        lemma_ipv4_text_fields(embedded_v4(a));
        assert forall|i: int| 0 <= i < t.len() implies #[trigger] t[i] != '/' by {
            if i >= 7 {
                assert(t[i] == q[i - 7]);
                assert(is_decimal_digit(q[i - 7]) || q[i - 7] == '.');
            }
        }
    } else if len > 1 {
        let p = hex_join(g.take(start));
        let r = hex_join(g.skip(start + len));
        lemma_hex_join_shape(g.take(start));
        lemma_hex_join_shape(g.skip(start + len));
        assert forall|i: int| 0 <= i < t.len() implies #[trigger] t[i] != '/' by {
            if i < p.len() {
                assert(t[i] == p[i]);
                assert(is_hex_digit(p[i]) || p[i] == ':');
            } else if i >= p.len() + 2 {
                assert(t[i] == r[i - p.len() - 2]);
                assert(is_hex_digit(r[i - p.len() - 2]) || r[i - p.len() - 2] == ':');
            }
        }
    } else {
        lemma_hex_join_shape(g);
        assert forall|i: int| 0 <= i < t.len() implies #[trigger] t[i] != '/' by {
            assert(is_hex_digit(t[i]) || t[i] == ':');
        }
    }
}

/// The text of an IPv6 address is no IPv4 address.
pub proof fn lemma_ipv6_text_is_no_ipv4(a: Ipv6Addr)
    ensures
        ipv4_of(ipv6_text(a)) is None,
{
    let t = ipv6_text(a);
    if ipv4_of(t) is Some {
        lemma_ipv4_text_unique(t);
        lemma_ipv4_text_fields(ipv4_of(t)->0);
        lemma_ipv6_text_has_colon(a);
        let i = choose|i: int| 0 <= i < t.len() && t[i] == ':';
        assert(is_decimal_digit(t[i]) || t[i] == '.');
    }
}

/// The text of an IPv4 address is no IPv6 address.
pub proof fn lemma_ipv4_text_is_no_ipv6(a: Ipv4Addr)
    ensures
        ipv6_of(ipv4_text(a)) is None,
{
    let t = ipv4_text(a);
    lemma_ipv4_text_fields(a);
    lemma_ipv4_round_trip(a);
    lemma_decimal_text(a.a as nat);
    lemma_decimal_text(a.b as nat);
    lemma_decimal_text(a.c as nat);
    lemma_decimal_text(a.d as nat);
    assert(t.len() >= 7);
    assert forall|i: int| 0 <= i < t.len() implies t[i] != ':' by {
        assert(is_decimal_digit(t[i]) || t[i] == '.');
    }
    assert(has_no_gap(t));
    lemma_first_gap_none(t, 0);
    lemma_split_single(t, ':');
    let f = seq![t];
    assert(f.drop_last() =~= Seq::<Seq<char>>::empty());
    assert(f.last() == t);
    assert(fields_groups(f.drop_last(), false) == Some(Seq::<u16>::empty()));
    assert(hex_u16(t) is None);
    assert(fields_groups(f, true)->0.len() == 2);
}

/// The group `ffff` reads as 65535.
proof fn lemma_all_ones_group()
    ensures
        hex_u16(seq!['f', 'f', 'f', 'f']) == Some(0xffffu16),
{
    assert(hex_text(15) =~= seq!['f']);
    assert(hex_text(255) =~= seq!['f', 'f']);
    assert(hex_text(4095) =~= seq!['f', 'f', 'f']);
    assert(hex_text(65535) =~= seq!['f', 'f', 'f', 'f']);
    lemma_hex_text(65535);
}

/// The groups behind the `::` of a mapped IPv4 address.
proof fn lemma_mapped_tail(v4: Ipv4Addr)
    ensures
        groups_of(seq!['f', 'f', 'f', 'f'] + seq![':'] + ipv4_text(v4), true) == Some(
            seq![0xffffu16, high_group(v4), low_group(v4)],
        ),
{
    let q = ipv4_text(v4);
    let word = seq!['f', 'f', 'f', 'f'];
    let tail = word + seq![':'] + q;
    lemma_all_ones_group();
    lemma_ipv4_round_trip(v4);
    lemma_ipv4_text_fields(v4);
    lemma_decimal_text(v4.a as nat);
    lemma_decimal_text(v4.b as nat);
    lemma_decimal_text(v4.c as nat);
    lemma_decimal_text(v4.d as nat);
    assert(q.len() >= 7);
    assert forall|i: int| 0 <= i < q.len() implies q[i] != ':' by {
        assert(is_decimal_digit(q[i]) || q[i] == '.');
    }
    lemma_split_single(word, ':');
    lemma_split_append(word, q, ':');
    let f = seq![word, q];
    assert(split(tail, ':') =~= f);
    let f1 = f.drop_last();
    assert(f1 =~= seq![word]);
    assert(f1.drop_last() =~= Seq::<Seq<char>>::empty());
    assert(fields_groups(f1.drop_last(), false) == Some(Seq::<u16>::empty()));
    assert(f1.last() == word);
    assert(fields_groups(f1, false) == Some(Seq::<u16>::empty().push(0xffffu16)));
    assert(f.last() == q);
    assert(hex_u16(q) is None);
    let tg = Seq::<u16>::empty().push(0xffffu16).push(high_group(v4)).push(low_group(v4));
    assert(fields_groups(f, true) == Some(tg));
    assert(tg =~= seq![0xffffu16, high_group(v4), low_group(v4)]);
    assert(tail.len() > 0);
}

/// A mapped IPv4 address is read back from its text.
proof fn lemma_round_trip_mapped(a: Ipv6Addr)
    requires
        is_v4_mapped(a),
    ensures
        ipv6_of(ipv6_text(a)) == Some(a),
{
    let g = segments(a);
    let t = ipv6_text(a);
    let v4 = embedded_v4(a);
    let q = ipv4_text(v4);
    let word = seq!['f', 'f', 'f', 'f'];
    lemma_mapped_tail(v4);
    assert(t[0] == ':' && t[1] == ':');
    lemma_first_gap_at(t, 0, 0);
    assert(t.take(0) =~= Seq::<char>::empty());
    let tail = t.skip(2);
    assert(tail =~= word + seq![':'] + q);
    let tg = seq![0xffffu16, high_group(v4), low_group(v4)];
    assert(high_group(v4) == a.s6);
    assert(low_group(v4) == a.s7);
    let head = Seq::<u16>::empty();
    assert(groups_of(t.take(0), false) == Some(head));
    assert(groups_of(tail, true) == Some(tg));
    let all = head + zeros(8 - head.len() - tg.len()) + tg;
    assert(all =~= g);
    assert(addr_of(all) == a);
}

/// An address with a run of zero groups is read back from its text.
proof fn lemma_round_trip_compressed(a: Ipv6Addr)
    requires
        !is_v4_mapped(a),
        zero_run(segments(a), longest_run_start(segments(a), 8)) > 1,
    ensures
        ipv6_of(ipv6_text(a)) == Some(a),
{
    let g = segments(a);
    let start = longest_run_start(g, 8);
    let len = zero_run(g, start);
    let t = ipv6_text(a);
    lemma_longest_run_start(g, 8);
    lemma_zero_run(g, start);
    let h = g.take(start);
    let tl = g.skip(start + len);
    let p = hex_join(h);
    let r = hex_join(tl);
    lemma_hex_join_shape(h);
    lemma_groups_of_hex_join(h, false);
    lemma_groups_of_hex_join(tl, true);
    let at = p.len() as int;
    assert(t =~= p + seq![':', ':'] + r);
    assert forall|i: int| 0 <= i < at implies !(#[trigger] t[i] == ':' && t[i + 1] == ':') by {
        if i + 1 < at {
            assert(t[i] == p[i] && t[i + 1] == p[i + 1]);
        } else {
            assert(t[i] == p[p.len() - 1]);
        }
    }
    assert(t[at] == ':' && t[at + 1] == ':');
    lemma_first_gap_at(t, 0, at);
    assert(t.take(at) =~= p);
    assert(t.skip(at + 2) =~= r);
    let all = h + zeros(8 - h.len() - tl.len()) + tl;
    assert(all =~= g);
    assert(addr_of(all) == a);
}

/// An address without a run of zero groups is read back from its text.
proof fn lemma_round_trip_full(a: Ipv6Addr)
    requires
        !is_v4_mapped(a),
        zero_run(segments(a), longest_run_start(segments(a), 8)) <= 1,
    ensures
        ipv6_of(ipv6_text(a)) == Some(a),
{
    let g = segments(a);
    let t = ipv6_text(a);
    lemma_hex_join_shape(g);
    lemma_first_gap_none(t, 0);
    lemma_groups_of_hex_join(g, true);
    assert(addr_of(g) == a);
}

/// Reading the text of an IPv6 address gives the address back.
pub proof fn lemma_ipv6_round_trip(a: Ipv6Addr)
    ensures
        ipv6_of(ipv6_text(a)) == Some(a),
{
    if is_v4_mapped(a) {
        lemma_round_trip_mapped(a);
    } else if zero_run(segments(a), longest_run_start(segments(a), 8)) > 1 {
        lemma_round_trip_compressed(a);
    } else {
        lemma_round_trip_full(a);
    }
}

} // verus!
