//! IP addresses of both families and their textual forms.
//!
//! Each family has a grammar (`from_text`) that says which texts denote an
//! address, and a canonical text (`text`) that is written back.
use crate::text::{
    all_decimal, decimal_text, decimal_u32, decimal_value, is_decimal_digit, join,
    lemma_decimal_short, lemma_decimal_text, lemma_decimal_text_of_value, lemma_join_split,
    lemma_split_append, lemma_split_single, parse_decimal, push_decimal, split, split_fields,
    to_chars, view_each,
};
use vstd::prelude::*;

verus! {

/// An address family: a plain value with a grammar and a canonical text.
pub trait IpFamily: Copy {
    /// The canonical text of an address.
    spec fn text(self) -> Seq<char>;

    /// The address that a text denotes, if it denotes one.
    spec fn from_text(s: Seq<char>) -> Option<Self>;

    /// Reads an address from its characters.
    fn from_chars(s: &[char]) -> (r: Option<Self>)
        ensures
            r == Self::from_text(s@),
    ;

    /// Writes the canonical text of the address.
    fn to_string(&self) -> (r: String)
        ensures
            r@ == self.text(),
    ;

    /// Reading the canonical text of an address gives the address back. The
    /// text is not empty and holds no slash.
    proof fn lemma_text(a: Self)
        ensures
            Self::from_text(a.text()) == Some(a),
            a.text().len() > 0,
            forall|i: int| 0 <= i < a.text().len() ==> #[trigger] a.text()[i] != '/',
    ;
}

/// An IPv4 address, as its four octets in network order.
#[derive(Clone, Copy, PartialEq, Eq, Structural, Debug)]
pub struct Ipv4Addr {
    pub a: u8,
    pub b: u8,
    pub c: u8,
    pub d: u8,
}

/// What one field of a dotted quad reads as: one to three decimal digits,
/// no leading zero unless the field is `0`, and a value of at most 255.
pub open spec fn octet_of(t: Seq<char>) -> Option<u8> {
    if 1 <= t.len() <= 3 && all_decimal(t) && (t.len() == 1 || t[0] != '0') && decimal_value(t)
        <= 255 {
        Some(decimal_value(t) as u8)
    } else {
        None
    }
}

/// The IPv4 address that a dotted quad denotes: exactly four octet fields
/// separated by dots.
pub open spec fn ipv4_of(s: Seq<char>) -> Option<Ipv4Addr> {
    let f = split(s, '.');
    if f.len() == 4 && octet_of(f[0]) is Some && octet_of(f[1]) is Some && octet_of(f[2]) is Some
        && octet_of(f[3]) is Some {
        Some(
            Ipv4Addr {
                a: octet_of(f[0])->0,
                b: octet_of(f[1])->0,
                c: octet_of(f[2])->0,
                d: octet_of(f[3])->0,
            },
        )
    } else {
        None
    }
}

/// The dotted quad of an IPv4 address.
pub open spec fn ipv4_text(a: Ipv4Addr) -> Seq<char> {
    decimal_text(a.a as nat) + seq!['.'] + decimal_text(a.b as nat) + seq!['.'] + decimal_text(
        a.c as nat,
    ) + seq!['.'] + decimal_text(a.d as nat)
}

/// Reads one octet field of a dotted quad.
pub fn parse_octet(t: &[char]) -> (r: Option<u8>)
    ensures
        r == octet_of(t@),
{
    if t.len() == 0 || t.len() > 3 {
        return None;
    }
    if t.len() > 1 && t[0] == '0' {
        return None;
    }
    match parse_decimal(t) {
        Some(v) => {
            if v <= 255 {
                Some(v as u8)
            } else {
                None
            }
        },
        None => {
            proof {
                if all_decimal(t@) {
                    lemma_decimal_short(t@);
                }
            }
            None
        },
    }
}

impl IpFamily for Ipv4Addr {
    open spec fn text(self) -> Seq<char> {
        ipv4_text(self)
    }

    open spec fn from_text(s: Seq<char>) -> Option<Self> {
        ipv4_of(s)
    }

    fn from_chars(s: &[char]) -> (r: Option<Self>)
        ensures
            r == ipv4_of(s@),
    {
        let fields = split_fields(s, '.');
        if fields.len() != 4 {
            return None;
        }
        assert(view_each(fields@)[0] == fields[0]@);
        assert(view_each(fields@)[1] == fields[1]@);
        assert(view_each(fields@)[2] == fields[2]@);
        assert(view_each(fields@)[3] == fields[3]@);
        let a = match parse_octet(fields[0].as_slice()) {
            Some(v) => v,
            None => {
                return None;
            },
        };
        let b = match parse_octet(fields[1].as_slice()) {
            Some(v) => v,
            None => {
                return None;
            },
        };
        let c = match parse_octet(fields[2].as_slice()) {
            Some(v) => v,
            None => {
                return None;
            },
        };
        let d = match parse_octet(fields[3].as_slice()) {
            Some(v) => v,
            None => {
                return None;
            },
        };
        Some(Ipv4Addr { a, b, c, d })
    }

    fn to_string(&self) -> (r: String)
        ensures
            r@ == ipv4_text(*self),
    {
        let mut out = String::new();
        push_decimal(&mut out, self.a as u32);
        out.append(".");
        push_decimal(&mut out, self.b as u32);
        out.append(".");
        push_decimal(&mut out, self.c as u32);
        out.append(".");
        push_decimal(&mut out, self.d as u32);
        proof {
            reveal_strlit(".");
            assert("."@ =~= seq!['.']);
            assert(out@ =~= ipv4_text(*self));
        }
        out
    }

    proof fn lemma_text(a: Self)
        ensures
            ipv4_of(ipv4_text(a)) == Some(a),
    {
        lemma_ipv4_round_trip(a);
        lemma_ipv4_text_fields(a);
        lemma_decimal_text(a.a as nat);
        let t = ipv4_text(a);
        assert forall|i: int| 0 <= i < t.len() implies #[trigger] t[i] != '/' by {
            assert(is_decimal_digit(t[i]) || t[i] == '.');
        }
    }
}

/// Why a text is not an address with a prefix.
#[derive(Clone, Copy, PartialEq, Eq, Structural, Debug)]
pub enum IpAddressError {
    /// There is no `/` in the text.
    MissingPrefix,
    /// What stands before the first `/` is no address of the family.
    InvalidAddress,
    /// What stands after the first `/` is no prefix length.
    InvalidPrefix,
}

/// An address together with a prefix length, written `address/prefix`.
#[derive(PartialEq, Eq, Debug)]
pub struct IpAddress<A> {
    pub addr: A,
    pub prefix: u32,
}

impl<A: IpFamily> Clone for IpAddress<A> {
    fn clone(&self) -> (r: Self)
        ensures
            r == *self,
    {
        IpAddress { addr: self.addr, prefix: self.prefix }
    }
}

impl<A: IpFamily> Copy for IpAddress<A> {

}

/// What a prefix length reads as: an optional `+`, then a decimal numeral
/// that fits in 32 bits.
pub open spec fn prefix_of(t: Seq<char>) -> Option<u32> {
    if t.len() > 0 && t[0] == '+' {
        decimal_u32(t.skip(1))
    } else {
        decimal_u32(t)
    }
}

/// Reads a prefix length.
pub fn parse_prefix(t: &[char]) -> (r: Option<u32>)
    ensures
        r == prefix_of(t@),
{
    if t.len() > 0 && t[0] == '+' {
        let rest = &t[1..t.len()];
        assert(rest@ =~= t@.skip(1));
        parse_decimal(rest)
    } else {
        parse_decimal(t)
    }
}

impl<A: IpFamily> IpAddress<A> {
    /// The canonical text: the address, a slash, the prefix length in decimal.
    pub open spec fn text(self) -> Seq<char> {
        self.addr.text() + seq!['/'] + decimal_text(self.prefix as nat)
    }

    /// What a text reads as. The address stands before the first `/` and the
    /// prefix length after it.
    pub open spec fn from_text(s: Seq<char>) -> Result<Self, IpAddressError> {
        let f = split(s, '/');
        if f.len() < 2 {
            Err(IpAddressError::MissingPrefix)
        } else if A::from_text(f[0]) is None {
            Err(IpAddressError::InvalidAddress)
        } else if f.len() > 2 || prefix_of(f[1]) is None {
            Err(IpAddressError::InvalidPrefix)
        } else {
            Ok(IpAddress { addr: A::from_text(f[0])->0, prefix: prefix_of(f[1])->0 })
        }
    }

    /// Reads an address with its prefix length.
    pub fn parse(s: &str) -> (r: Result<Self, IpAddressError>)
        ensures
            r == Self::from_text(s@),
    {
        let chars = to_chars(s);
        let fields = split_fields(chars.as_slice(), '/');
        if fields.len() < 2 {
            return Err(IpAddressError::MissingPrefix);
        }
        assert(view_each(fields@)[0] == fields[0]@);
        assert(view_each(fields@)[1] == fields[1]@);
        let addr = match A::from_chars(fields[0].as_slice()) {
            Some(a) => a,
            None => {
                return Err(IpAddressError::InvalidAddress);
            },
        };
        if fields.len() > 2 {
            return Err(IpAddressError::InvalidPrefix);
        }
        match parse_prefix(fields[1].as_slice()) {
            Some(prefix) => Ok(IpAddress { addr, prefix }),
            None => Err(IpAddressError::InvalidPrefix),
        }
    }

    /// Writes the canonical text.
    pub fn to_string(&self) -> (r: String)
        ensures
            r@ == self.text(),
    {
        let mut out = self.addr.to_string();
        out.append("/");
        push_decimal(&mut out, self.prefix);
        proof {
            reveal_strlit("/");
            assert("/"@ =~= seq!['/']);
            assert(out@ =~= self.text());
        }
        out
    }
}

/// The decimal numeral of an octet reads as that octet, and holds nothing
/// but decimal digits.
pub proof fn lemma_octet_text(v: u8)
    ensures
        octet_of(decimal_text(v as nat)) == Some(v),
        forall|i: int|
            0 <= i < decimal_text(v as nat).len() ==> is_decimal_digit(
                #[trigger] decimal_text(v as nat)[i],
            ),
{
    lemma_decimal_text(v as nat);
}

/// The dotted quad of an address has four fields, the numerals of its octets,
/// and holds nothing but decimal digits and dots.
pub proof fn lemma_ipv4_text_fields(a: Ipv4Addr)
    ensures
        split(ipv4_text(a), '.') == seq![
            decimal_text(a.a as nat),
            decimal_text(a.b as nat),
            decimal_text(a.c as nat),
            decimal_text(a.d as nat),
        ],
        forall|i: int|
            0 <= i < ipv4_text(a).len() ==> is_decimal_digit(#[trigger] ipv4_text(a)[i])
                || ipv4_text(a)[i] == '.',
{
    let ta = decimal_text(a.a as nat);
    let tb = decimal_text(a.b as nat);
    let tc = decimal_text(a.c as nat);
    let td = decimal_text(a.d as nat);
    lemma_octet_text(a.a);
    lemma_octet_text(a.b);
    lemma_octet_text(a.c);
    lemma_octet_text(a.d);
    lemma_split_single(ta, '.');
    lemma_split_append(ta, tb, '.');
    lemma_split_append(ta + seq!['.'] + tb, tc, '.');
    lemma_split_append(ta + seq!['.'] + tb + seq!['.'] + tc, td, '.');
    assert(split(ipv4_text(a), '.') =~= seq![ta, tb, tc, td]);
    let t = ipv4_text(a);
    assert forall|i: int| 0 <= i < t.len() implies is_decimal_digit(#[trigger] t[i]) || t[i]
        == '.' by {
        if i < ta.len() {
            assert(t[i] == ta[i]);
        } else if i == ta.len() {
        } else if i < ta.len() + 1 + tb.len() {
            assert(t[i] == tb[i - ta.len() - 1]);
        } else if i == ta.len() + 1 + tb.len() {
        } else if i < ta.len() + 1 + tb.len() + 1 + tc.len() {
            assert(t[i] == tc[i - ta.len() - tb.len() - 2]);
        } else if i == ta.len() + 1 + tb.len() + 1 + tc.len() {
        } else {
            assert(t[i] == td[i - ta.len() - tb.len() - tc.len() - 3]);
        }
    }
}

/// Reading the dotted quad of an IPv4 address gives the address back.
pub proof fn lemma_ipv4_round_trip(a: Ipv4Addr)
    ensures
        ipv4_of(ipv4_text(a)) == Some(a),
{
    lemma_ipv4_text_fields(a);
    lemma_octet_text(a.a);
    lemma_octet_text(a.b);
    lemma_octet_text(a.c);
    lemma_octet_text(a.d);
}

/// A text that reads as an IPv4 address is the dotted quad of that address:
/// every IPv4 address has exactly one text.
pub proof fn lemma_ipv4_text_unique(s: Seq<char>)
    requires
        ipv4_of(s) is Some,
    ensures
        ipv4_text(ipv4_of(s)->0) == s,
{
    let f = split(s, '.');
    lemma_join_split(s, '.');
    lemma_decimal_text_of_value(f[0]);
    lemma_decimal_text_of_value(f[1]);
    lemma_decimal_text_of_value(f[2]);
    lemma_decimal_text_of_value(f[3]);
    let f3 = f.drop_last();
    let f2 = f3.drop_last();
    let f1 = f2.drop_last();
    assert(join(f1, '.') == f[0]);
    assert(join(f2, '.') == join(f1, '.') + seq!['.'] + f[1]);
    assert(join(f3, '.') == join(f2, '.') + seq!['.'] + f[2]);
    assert(join(f, '.') == join(f3, '.') + seq!['.'] + f[3]);
}

/// Writing an address with its prefix length and reading the text back
/// gives the same address and prefix length, in either family.
pub proof fn lemma_prefixed_round_trip<A: IpFamily>(x: IpAddress<A>)
    ensures
        IpAddress::<A>::from_text(x.text()) == Ok::<IpAddress<A>, IpAddressError>(x),
{
    let at = x.addr.text();
    let pt = decimal_text(x.prefix as nat);
    A::lemma_text(x.addr);
    lemma_decimal_text(x.prefix as nat);
    lemma_split_single(at, '/');
    lemma_split_append(at, pt, '/');
    assert(split(x.text(), '/') =~= seq![at, pt]);
    assert(is_decimal_digit(pt[0]));
}

/// A text that reads as an IPv4 address with a prefix length is written back
/// in normal form: the address as it was given, a slash, and the prefix
/// length in decimal without sign or leading zeros. The normal form reads as
/// the same value, and writing that value gives the normal form again.
pub proof fn lemma_ipv4_prefixed_normal_form(s: Seq<char>)
    requires
        IpAddress::<Ipv4Addr>::from_text(s) is Ok,
    ensures
        ({
            let x = IpAddress::<Ipv4Addr>::from_text(s)->Ok_0;
            &&& x.text() == split(s, '/')[0] + seq!['/'] + decimal_text(x.prefix as nat)
            &&& IpAddress::<Ipv4Addr>::from_text(x.text()) == IpAddress::<Ipv4Addr>::from_text(s)
            &&& prefix_of(split(s, '/')[1]) == Some(x.prefix)
            &&& split(s, '/')[1] == decimal_text(x.prefix as nat) ==> x.text() == s
        }),
{
    let x = IpAddress::<Ipv4Addr>::from_text(s)->Ok_0;
    let f = split(s, '/');
    lemma_ipv4_text_unique(f[0]);
    lemma_prefixed_round_trip(x);
    lemma_join_split(s, '/');
    assert(f.drop_last().drop_last() =~= Seq::<Seq<char>>::empty());
    assert(join(f.drop_last(), '/') == f[0]);
    assert(join(f, '/') == f[0] + seq!['/'] + f[1]);
}

/// Reads an address of family `A` from a string.
pub fn parse_address<A: IpFamily>(s: &str) -> (r: Option<A>)
    ensures
        r == A::from_text(s@),
{
    let chars = to_chars(s);
    A::from_chars(chars.as_slice())
}

} // verus!
