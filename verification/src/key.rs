//! The storage-key data model: typed segments, addresses, the reserved
//! module namespace, and the textual rendering of keys.

use vstd::prelude::*;
use vstd::string::StrSliceExecFns;
use vstd::string::StringExecFns;

use crate::ident::str_eq;
use crate::ident::valid_seg_chars;
use crate::ident::valid_seg_str;
use crate::Error;

verus! {

/// A fixed-length token identity: the first twenty bytes of a cryptographic
/// digest of a denomination trace.
#[derive(Clone, Debug, PartialEq, Eq)]
pub struct IbcTokenHash(pub Vec<u8>);

impl View for IbcTokenHash {
    type V = Seq<u8>;

    open spec fn view(&self) -> Seq<u8> {
        self.0@
    }
}

impl IbcTokenHash {
    /// The number of digest bytes kept for a token identity.
    pub open spec fn spec_len() -> nat {
        20
    }

    /// A token hash holds exactly the truncated digest length.
    pub open spec fn wf(self) -> bool {
        self@.len() == Self::spec_len()
    }
}

/// The mathematical shape of an account address.
pub enum AddrV {
    /// The reserved address of the IBC module itself.
    Ibc,
    /// A stable internal token identity derived from a denomination trace.
    IbcToken(Seq<u8>),
    /// Any other account, carried by its canonical textual rendering.
    Other(Seq<char>),
}

/// An account address as it appears inside keys.
#[derive(Clone, Debug, PartialEq, Eq)]
pub enum Address {
    /// The reserved address of the IBC module itself.
    Ibc,
    /// A stable internal token identity derived from a denomination trace.
    IbcToken(IbcTokenHash),
    /// Any other account, carried by its canonical textual rendering.
    Other(String),
}

impl View for Address {
    type V = AddrV;

    open spec fn view(&self) -> AddrV {
        match self {
            Address::Ibc => AddrV::Ibc,
            Address::IbcToken(h) => AddrV::IbcToken(h@),
            Address::Other(s) => AddrV::Other(s@),
        }
    }
}

/// The mathematical shape of one key segment.
pub enum SegV {
    /// An address segment.
    Addr(AddrV),
    /// An arbitrary printable label.
    Str(Seq<char>),
}

/// One segment of a storage key.
#[derive(Clone, Debug, PartialEq, Eq)]
pub enum DbKeySeg {
    /// An address segment.
    AddressSeg(Address),
    /// An arbitrary printable label.
    StringSeg(String),
}

impl View for DbKeySeg {
    type V = SegV;

    open spec fn view(&self) -> SegV {
        match self {
            DbKeySeg::AddressSeg(a) => SegV::Addr(a@),
            DbKeySeg::StringSeg(s) => SegV::Str(s@),
        }
    }
}

/// A storage key: an ordered, non-empty sequence of typed segments, compared
/// segment-wise.
#[derive(Clone, Debug, PartialEq, Eq)]
pub struct Key {
    /// The segments, most significant first.
    pub segments: Vec<DbKeySeg>,
}

impl View for Key {
    type V = Seq<SegV>;

    open spec fn view(&self) -> Seq<SegV> {
        self.segments@.map_values(|s: DbKeySeg| s@)
    }
}

impl Key {
    /// Every key is a non-empty segment sequence.
    pub open spec fn wf(self) -> bool {
        self@.len() > 0
    }

    /// The number of segments.
    pub fn len(&self) -> (n: usize)
        ensures
            n == self@.len(),
    {
        self.segments.len()
    }
}

/// Copies a byte vector.
pub fn clone_bytes(v: &Vec<u8>) -> (r: Vec<u8>)
    ensures
        r@ == v@,
{
    let mut out: Vec<u8> = Vec::new();
    let mut i: usize = 0;
    while i < v.len()
        invariant
            i <= v@.len(),
            out@ == v@.take(i as int),
        decreases v@.len() - i,
    {
        out.push(v[i]);
        proof {
            assert(out@ =~= v@.take(i + 1));
        }
        i += 1;
    }
    proof {
        assert(v@.take(v@.len() as int) =~= v@);
    }
    out
}

impl Address {
    /// Whether the address is valid: see `addr_valid`.
    pub open spec fn valid(self) -> bool {
        addr_valid(self@)
    }

    /// A copy of the address with the same view.
    pub fn dup(&self) -> (r: Address)
        ensures
            r@ == self@,
    {
        match self {
            Address::Ibc => Address::Ibc,
            Address::IbcToken(h) => Address::IbcToken(IbcTokenHash(clone_bytes(&h.0))),
            Address::Other(s) => Address::Other(s.clone()),
        }
    }

    /// Checks address validity: a carried rendering must stand as a key
    /// segment and must not spell a reserved rendering.
    pub fn check_valid(&self) -> (r: bool)
        ensures
            r == self.valid(),
    {
        match self {
            Address::Ibc => true,
            Address::IbcToken(h) => h.0.len() == 20,
            Address::Other(s) => {
                if !valid_seg_str(s.as_str()) {
                    return false;
                }
                if str_eq(s.as_str(), "IBC") {
                    return false;
                }
                let n = s.as_str().unicode_len();
                if n >= 10 {
                    let pfx = s.as_str().substring_char(0, 10);
                    let reserved = str_eq(pfx, "IBC-token-");
                    proof {
                        assert(s@.take(10) =~= s@.subrange(0, 10));
                    }
                    !reserved
                } else {
                    true
                }
            },
        }
    }
}

/// The hexadecimal digit character for a value below sixteen.
pub open spec fn hex_char(d: nat) -> char {
    if d == 0 { '0' } else if d == 1 { '1' } else if d == 2 { '2' }
    else if d == 3 { '3' } else if d == 4 { '4' } else if d == 5 { '5' }
    else if d == 6 { '6' } else if d == 7 { '7' } else if d == 8 { '8' }
    else if d == 9 { '9' } else if d == 10 { 'a' } else if d == 11 { 'b' }
    else if d == 12 { 'c' } else if d == 13 { 'd' } else if d == 14 { 'e' }
    else { 'f' }
}

/// The lowercase hexadecimal rendering of a byte sequence, two characters
/// per byte.
pub open spec fn hex_chars(bs: Seq<u8>) -> Seq<char>
    decreases bs.len(),
{
    if bs.len() == 0 {
        Seq::<char>::empty()
    } else {
        hex_chars(bs.drop_last()) + seq![
            hex_char((bs.last() / 16) as nat),
            hex_char((bs.last() % 16) as nat),
        ]
    }
}

/// Every character of a hexadecimal rendering is a digit or a lowercase
/// letter, so the rendering can stand as a key segment.
pub proof fn lemma_hex_chars_seg(bs: Seq<u8>)
    ensures
        hex_chars(bs).len() == 2 * bs.len(),
        forall|i: int| 0 <= i < hex_chars(bs).len() ==> is_hex_char(#[trigger] hex_chars(bs)[i]),
    decreases bs.len(),
{
    if bs.len() > 0 {
        lemma_hex_chars_seg(bs.drop_last());
        assert(is_hex_char(hex_char((bs.last() / 16) as nat)));
        assert(is_hex_char(hex_char((bs.last() % 16) as nat)));
    }
}

/// Whether a character can appear in a hexadecimal rendering.
pub open spec fn is_hex_char(c: char) -> bool {
    c == '0' || c == '1' || c == '2' || c == '3' || c == '4' || c == '5' || c == '6' || c == '7'
    || c == '8' || c == '9' || c == 'a' || c == 'b' || c == 'c' || c == 'd' || c == 'e'
    || c == 'f'
}

/// The one-character string for a hexadecimal digit.
fn hex_to_str(d: u8) -> (r: &'static str)
    requires
        d < 16,
    ensures
        r@ == seq![hex_char(d as nat)],
{
    proof {
        reveal_strlit("0");
        reveal_strlit("1");
        reveal_strlit("2");
        reveal_strlit("3");
        reveal_strlit("4");
        reveal_strlit("5");
        reveal_strlit("6");
        reveal_strlit("7");
        reveal_strlit("8");
        reveal_strlit("9");
        reveal_strlit("a");
        reveal_strlit("b");
        reveal_strlit("c");
        reveal_strlit("d");
        reveal_strlit("e");
        reveal_strlit("f");
    }
    let r: &'static str = if d == 0 { "0" } else if d == 1 { "1" } else if d == 2 { "2" }
    else if d == 3 { "3" } else if d == 4 { "4" } else if d == 5 { "5" }
    else if d == 6 { "6" } else if d == 7 { "7" } else if d == 8 { "8" }
    else if d == 9 { "9" } else if d == 10 { "a" } else if d == 11 { "b" }
    else if d == 12 { "c" } else if d == 13 { "d" } else if d == 14 { "e" }
    else { "f" };
    proof {
        assert(r@ =~= seq![hex_char(d as nat)]);
    }
    r
}

/// Renders bytes as lowercase hexadecimal.
pub fn bytes_to_hex(bs: &Vec<u8>) -> (r: String)
    ensures
        r@ == hex_chars(bs@),
{
    let mut out = String::new();
    let mut i: usize = 0;
    while i < bs.len()
        invariant
            i <= bs@.len(),
            out@ == hex_chars(bs@.take(i as int)),
        decreases bs@.len() - i,
    {
        let b = bs[i];
        let mut next = out;
        next.append(hex_to_str(b / 16));
        next.append(hex_to_str(b % 16));
        proof {
            assert(bs@.take(i + 1).drop_last() =~= bs@.take(i as int));
            assert(bs@.take(i + 1).last() == bs@[i as int]);
            assert(next@ =~= hex_chars(bs@.take(i + 1)));
        }
        out = next;
        i += 1;
    }
    proof {
        assert(bs@.take(bs@.len() as int) =~= bs@);
    }
    out
}

/// The textual rendering of an address.
pub open spec fn addr_chars(a: AddrV) -> Seq<char> {
    match a {
        AddrV::Ibc => "IBC"@,
        AddrV::IbcToken(h) => "IBC-token-"@ + hex_chars(h),
        AddrV::Other(s) => s,
    }
}

/// Renders an address textually.
pub fn addr_to_repr(a: &Address) -> (r: String)
    ensures
        r@ == addr_chars(a@),
{
    match a {
        Address::Ibc => String::from_str("IBC"),
        Address::IbcToken(h) => {
            let hex = bytes_to_hex(&h.0);
            String::from_str("IBC-token-").concat(hex.as_str())
        },
        Address::Other(s) => s.clone(),
    }
}

/// An internal token address renders as a valid key segment.
pub proof fn lemma_token_addr_seg(h: Seq<u8>)
    ensures
        valid_seg_chars(addr_chars(AddrV::IbcToken(h))),
{
    reveal_strlit("IBC-token-");
    lemma_hex_chars_seg(h);
    let s = addr_chars(AddrV::IbcToken(h));
    assert(s[0] == 'I');
    assert forall|i: int| 0 <= i < s.len() implies s[i] != '/' by {
        if i >= 10 {
            assert(s[i] == hex_chars(h)[i - 10]);
            assert(is_hex_char(hex_chars(h)[i - 10]));
        }
    }
}

/// A valid address stands for one account unambiguously: a carried
/// rendering must stand as a key segment and must not coincide with the
/// reserved rendering of the module address or of an internal token
/// address, and a token identity holds exactly the truncated digest length.
/// Under this predicate the rendering is injective, so per-token keys name
/// per-token slots.
pub open spec fn addr_valid(a: AddrV) -> bool {
    match a {
        AddrV::Ibc => true,
        AddrV::IbcToken(h) => h.len() == IbcTokenHash::spec_len(),
        AddrV::Other(s) => {
            &&& valid_seg_chars(s)
            &&& s != "IBC"@
            &&& !(s.len() >= 10 && s.take(10) == "IBC-token-"@)
        },
    }
}

/// A valid address renders as a valid key segment.
pub proof fn lemma_addr_valid_seg(a: AddrV)
    requires
        addr_valid(a),
    ensures
        valid_seg_chars(addr_chars(a)),
{
    match a {
        AddrV::Ibc => {
            reveal_strlit("IBC");
        },
        AddrV::IbcToken(h) => {
            lemma_token_addr_seg(h);
        },
        AddrV::Other(_) => {},
    }
}

/// Two hexadecimal digits render as the same character only if they are the
/// same digit.
proof fn lemma_hex_char_inj(x: nat, y: nat)
    requires
        x < 16,
        y < 16,
        hex_char(x) == hex_char(y),
    ensures
        x == y,
{
}

/// The hexadecimal rendering is injective over byte sequences of one
/// length.
pub proof fn lemma_hex_chars_inj(b1: Seq<u8>, b2: Seq<u8>)
    requires
        b1.len() == b2.len(),
        hex_chars(b1) == hex_chars(b2),
    ensures
        b1 == b2,
    decreases b1.len(),
{
    if b1.len() == 0 {
        assert(b1 =~= b2);
    } else {
        let n = b1.len() as int;
        lemma_hex_chars_seg(b1.drop_last());
        lemma_hex_chars_seg(b2.drop_last());
        let t1 = hex_chars(b1.drop_last());
        let t2 = hex_chars(b2.drop_last());
        assert(hex_chars(b1)[2 * n - 2] == hex_char((b1.last() / 16) as nat));
        assert(hex_chars(b1)[2 * n - 1] == hex_char((b1.last() % 16) as nat));
        assert(hex_chars(b2)[2 * n - 2] == hex_char((b2.last() / 16) as nat));
        assert(hex_chars(b2)[2 * n - 1] == hex_char((b2.last() % 16) as nat));
        lemma_hex_char_inj((b1.last() / 16) as nat, (b2.last() / 16) as nat);
        lemma_hex_char_inj((b1.last() % 16) as nat, (b2.last() % 16) as nat);
        assert(b1.last() == b2.last()) by (nonlinear_arith)
            requires
                b1.last() / 16 == b2.last() / 16,
                b1.last() % 16 == b2.last() % 16,
        ;
        assert(t1 =~= hex_chars(b1).take(2 * n - 2));
        assert(t2 =~= hex_chars(b2).take(2 * n - 2));
        lemma_hex_chars_inj(b1.drop_last(), b2.drop_last());
        assert forall|i: int| 0 <= i < n implies b1[i] == b2[i] by {
            if i < n - 1 {
                assert(b1[i] == b1.drop_last()[i]);
                assert(b2[i] == b2.drop_last()[i]);
            } else {
                assert(b1[i] == b1.last());
                assert(b2[i] == b2.last());
            }
        }
        assert(b1 =~= b2);
    }
}

/// The address rendering is injective over valid addresses: equal textual
/// forms come from the same address, so a key segment built from a valid
/// address names that address alone.
pub proof fn lemma_addr_chars_inj(a: AddrV, b: AddrV)
    requires
        addr_valid(a),
        addr_valid(b),
        addr_chars(a) == addr_chars(b),
    ensures
        a == b,
{
    reveal_strlit("IBC");
    reveal_strlit("IBC-token-");
    assert("IBC"@.len() == 3);
    assert("IBC-token-"@.len() == 10);
    match a {
        AddrV::Ibc => {
            match b {
                AddrV::Ibc => {},
                AddrV::IbcToken(h) => {
                    lemma_hex_chars_seg(h);
                    assert(addr_chars(b).len() >= 10);
                    assert(false);
                },
                AddrV::Other(s) => {
                    assert(s == "IBC"@);
                    assert(false);
                },
            }
        },
        AddrV::IbcToken(h1) => {
            match b {
                AddrV::Ibc => {
                    lemma_hex_chars_seg(h1);
                    assert(addr_chars(a).len() >= 10);
                    assert(false);
                },
                AddrV::IbcToken(h2) => {
                    lemma_hex_chars_seg(h1);
                    lemma_hex_chars_seg(h2);
                    assert(hex_chars(h1) =~= hex_chars(h2)) by {
                        assert(addr_chars(a).len() == addr_chars(b).len());
                        assert forall|i: int|
                            0 <= i < hex_chars(h1).len() implies hex_chars(h1)[i] == hex_chars(
                            h2,
                        )[i] by {
                            assert(addr_chars(a)[10 + i] == hex_chars(h1)[i]);
                            assert(addr_chars(b)[10 + i] == hex_chars(h2)[i]);
                        }
                    }
                    lemma_hex_chars_inj(h1, h2);
                },
                AddrV::Other(s) => {
                    lemma_hex_chars_seg(h1);
                    assert(s.len() >= 10);
                    assert(s.take(10) =~= "IBC-token-"@) by {
                        assert forall|i: int| 0 <= i < 10 implies s[i] == "IBC-token-"@[i] by {
                            assert(addr_chars(a)[i] == "IBC-token-"@[i]);
                        }
                    }
                    assert(false);
                },
            }
        },
        AddrV::Other(s1) => {
            match b {
                AddrV::Ibc => {
                    assert(s1 == "IBC"@);
                    assert(false);
                },
                AddrV::IbcToken(h2) => {
                    lemma_hex_chars_seg(h2);
                    assert(s1.len() >= 10);
                    assert(s1.take(10) =~= "IBC-token-"@) by {
                        assert forall|i: int| 0 <= i < 10 implies s1[i] == "IBC-token-"@[i] by {
                            assert(addr_chars(b)[i] == "IBC-token-"@[i]);
                        }
                    }
                    assert(false);
                },
                AddrV::Other(_) => {},
            }
        },
    }
}

/// The textual rendering of one segment; an address segment is marked.
pub open spec fn seg_chars(s: SegV) -> Seq<char> {
    match s {
        SegV::Addr(a) => seq!['#'] + addr_chars(a),
        SegV::Str(t) => t,
    }
}

/// The textual rendering of a segment sequence, separated by slashes.
pub open spec fn segs_chars(ss: Seq<SegV>) -> Seq<char>
    decreases ss.len(),
{
    if ss.len() == 0 {
        Seq::<char>::empty()
    } else if ss.len() == 1 {
        seg_chars(ss[0])
    } else {
        seg_chars(ss[0]) + seq!['/'] + segs_chars(ss.skip(1))
    }
}

/// Appending one segment appends a slash and that segment's rendering.
pub proof fn lemma_segs_chars_push(ss: Seq<SegV>, s: SegV)
    requires
        ss.len() > 0,
    ensures
        segs_chars(ss.push(s)) == segs_chars(ss) + seq!['/'] + seg_chars(s),
    decreases ss.len(),
{
    if ss.len() == 1 {
        assert(ss.push(s).skip(1) =~= seq![s]);
        assert(ss.push(s)[0] == ss[0]);
        assert(segs_chars(seq![s]) == seg_chars(seq![s][0]));
        assert(seq![s][0] == s);
        assert(segs_chars(ss.push(s)) == seg_chars(ss[0]) + seq!['/'] + seg_chars(s));
        assert(segs_chars(ss) == seg_chars(ss[0]));
        assert(segs_chars(ss.push(s)) =~= segs_chars(ss) + seq!['/'] + seg_chars(s));
    } else {
        lemma_segs_chars_push(ss.skip(1), s);
        assert(ss.push(s).skip(1) =~= ss.skip(1).push(s));
        assert(ss.push(s)[0] == ss[0]);
        assert(segs_chars(ss.push(s)) == seg_chars(ss[0]) + seq!['/'] + segs_chars(
            ss.skip(1).push(s),
        ));
        assert(segs_chars(ss) == seg_chars(ss[0]) + seq!['/'] + segs_chars(ss.skip(1)));
        assert(segs_chars(ss.push(s)) =~= segs_chars(ss) + seq!['/'] + seg_chars(s));
    }
}

/// Renders a key textually, for diagnostics.
pub fn key_to_repr(k: &Key) -> (r: String)
    ensures
        r@ == segs_chars(k@),
{
    let mut out = String::new();
    let mut i: usize = 0;
    let n = k.segments.len();
    while i < n
        invariant
            n == k@.len(),
            i <= n,
            out@ == segs_chars(k@.take(i as int)),
        decreases n - i,
    {
        let mut next = out;
        if i > 0 {
            next.append("/");
        }
        let ghost mid = next@;
        match &k.segments[i] {
            DbKeySeg::AddressSeg(a) => {
                next.append("#");
                let ar = addr_to_repr(a);
                next.append(ar.as_str());
                proof {
                    reveal_strlit("#");
                    assert(k.segments@[i as int] == DbKeySeg::AddressSeg(*a));
                    assert(next@ =~= mid + seg_chars(k@[i as int]));
                }
            },
            DbKeySeg::StringSeg(s) => {
                next.append(s.as_str());
                proof {
                    assert(k.segments@[i as int] == DbKeySeg::StringSeg(*s));
                    assert(next@ =~= mid + seg_chars(k@[i as int]));
                }
            },
        }
        proof {
            reveal_strlit("/");
            assert(k@[i as int] == k.segments@[i as int]@);
            assert(next@ =~= mid + seg_chars(k@[i as int]));
            assert(k@.take(i + 1) =~= k@.take(i as int).push(k@[i as int]));
            if i > 0 {
                lemma_segs_chars_push(k@.take(i as int), k@[i as int]);
            } else {
                assert(k@.take(1) =~= seq![k@[0]]);
                assert(segs_chars(seq![k@[0]]) == seg_chars(k@[0]));
            }
            assert(next@ =~= segs_chars(k@.take(i + 1)));
        }
        out = next;
        i += 1;
    }
    proof {
        assert(k@.take(n as int) =~= k@);
    }
    out
}

/// Splits a character sequence on slashes; a string without a slash is one
/// part, and every slash opens a new (possibly empty) part.
pub open spec fn split_path(s: Seq<char>) -> Seq<Seq<char>>
    decreases s.len(),
{
    if s.len() == 0 {
        seq![Seq::<char>::empty()]
    } else if s[0] == '/' {
        seq![Seq::<char>::empty()] + split_path(s.skip(1))
    } else {
        let rest = split_path(s.skip(1));
        seq![seq![s[0]] + rest[0]] + rest.skip(1)
    }
}

/// A split has at least one part.
pub proof fn lemma_split_nonempty(s: Seq<char>)
    ensures
        split_path(s).len() > 0,
    decreases s.len(),
{
    if s.len() > 0 {
        lemma_split_nonempty(s.skip(1));
    }
}

/// If the first slash of a sequence stands at a known position, the split is
/// the part before it followed by the split of what follows it.
pub proof fn lemma_split_at_first_slash(t: Seq<char>, j: int)
    requires
        0 <= j <= t.len(),
        forall|k: int| 0 <= k < j ==> t[k] != '/',
    ensures
        j < t.len() && t[j] == '/' ==> split_path(t) == seq![t.take(j)] + split_path(
            t.skip(j + 1),
        ),
        j == t.len() ==> split_path(t) == seq![t],
    decreases j,
{
    lemma_split_nonempty(t);
    if j == 0 {
        if 0 < t.len() && t[0] == '/' {
            assert(t.take(0) =~= Seq::<char>::empty());
            assert(split_path(t) =~= seq![t.take(0)] + split_path(t.skip(1)));
        }
        if t.len() == 0 {
            assert(t =~= Seq::<char>::empty());
            assert(split_path(t) =~= seq![t]);
        }
    } else {
        let u = t.skip(1);
        lemma_split_nonempty(u);
        lemma_split_at_first_slash(u, j - 1);
        let rest = split_path(u);
        if j < t.len() && t[j] == '/' {
            assert(u[j - 1] == '/');
            assert(rest == seq![u.take(j - 1)] + split_path(u.skip(j)));
            assert(rest[0] == u.take(j - 1));
            assert(seq![t[0]] + u.take(j - 1) =~= t.take(j));
            assert(u.skip(j) =~= t.skip(j + 1));
            assert(rest.skip(1) =~= split_path(t.skip(j + 1)));
            assert(split_path(t) =~= seq![t.take(j)] + split_path(t.skip(j + 1)));
        } else if j == t.len() {
            assert(rest == seq![u]);
            assert(rest[0] == seq![u][0]);
            assert(seq![u][0] == u);
            assert(seq![t[0]] + u =~= t);
            assert(rest.skip(1) =~= Seq::<Seq<char>>::empty());
            assert(t[0] != '/');
            assert(split_path(t) == seq![seq![t[0]] + rest[0]] + rest.skip(1));
            assert(seq![t[0]] + rest[0] == t);
            assert(split_path(t) =~= seq![t]);
        }
    }
}

/// Splits a string on slashes into its parts.
pub fn split_str(s: &str) -> (parts: Vec<String>)
    ensures
        parts@.map_values(|p: String| p@) == split_path(s@),
{
    let len = s.unicode_len();
    let mut parts: Vec<String> = Vec::new();
    let mut start: usize = 0;
    let mut i: usize = 0;
    proof {
        assert(s@.skip(0) =~= s@);
        assert(parts@.map_values(|p: String| p@) =~= Seq::<Seq<char>>::empty());
    }
    while i < len
        invariant
            len == s@.len(),
            start <= i <= len,
            forall|j: int| start <= j < i ==> s@[j] != '/',
            split_path(s@) =~= parts@.map_values(|p: String| p@) + split_path(
                s@.skip(start as int),
            ),
        decreases len - i,
    {
        if s.get_char(i) == '/' {
            let part = String::from_str(s.substring_char(start, i));
            proof {
                let t = s@.skip(start as int);
                assert forall|k: int| 0 <= k < i - start implies t[k] != '/' by {
                    assert(t[k] == s@[start + k]);
                }
                assert(t[i - start] == '/');
                lemma_split_at_first_slash(t, i - start);
                assert(t.take(i - start) =~= s@.subrange(start as int, i as int));
                assert(t.skip(i - start + 1) =~= s@.skip(i + 1));
                assert((parts@.map_values(|p: String| p@)).push(part@) =~= parts@.push(
                    part,
                ).map_values(|p: String| p@));
            }
            parts.push(part);
            start = i + 1;
        }
        i += 1;
    }
    let last = String::from_str(s.substring_char(start, len));
    proof {
        let t = s@.skip(start as int);
        assert forall|k: int| 0 <= k < t.len() implies t[k] != '/' by {
            assert(t[k] == s@[start + k]);
        }
        lemma_split_at_first_slash(t, t.len() as int);
        assert(t =~= s@.subrange(start as int, len as int));
        assert((parts@.map_values(|p: String| p@)).push(last@) =~= parts@.push(last).map_values(
            |p: String| p@,
        ));
        assert(parts@.push(last).map_values(|p: String| p@) =~= split_path(s@));
    }
    parts.push(last);
    parts
}

/// The key shape produced from a path: the reserved namespace address
/// followed by the path's parts as string segments.
pub open spec fn path_key(parts: Seq<Seq<char>>) -> Seq<SegV> {
    seq![SegV::Addr(AddrV::Ibc)] + parts.map_values(|p: Seq<char>| SegV::Str(p))
}

/// Builds a key of the IBC-related data: the reserved namespace address
/// followed by the slash-separated parts of the path. Fails when some part
/// cannot stand as a key segment.
pub fn ibc_key(path: &str) -> (r: Result<Key, Error>)
    ensures
        r matches Ok(k) ==> k@ == path_key(split_path(path@)) && (forall|i: int|
            0 <= i < split_path(path@).len() ==> valid_seg_chars(#[trigger] split_path(path@)[i])),
        r is Err ==> exists|i: int|
            0 <= i < split_path(path@).len() && !valid_seg_chars(#[trigger] split_path(path@)[i]),
        r matches Err(e) ==> e is StorageKey,
{
    let parts = split_str(path);
    let mut segments: Vec<DbKeySeg> = Vec::new();
    segments.push(DbKeySeg::AddressSeg(Address::Ibc));
    let mut i: usize = 0;
    let n = parts.len();
    while i < n
        invariant
            n == parts@.len(),
            parts@.map_values(|p: String| p@) == split_path(path@),
            i <= n,
            segments@.len() == i + 1,
            segments@[0] == DbKeySeg::AddressSeg(Address::Ibc),
            forall|j: int| 0 <= j < i ==> valid_seg_chars(#[trigger] split_path(path@)[j]),
            forall|j: int|
                1 <= j <= i ==> (#[trigger] segments@[j])@ == SegV::Str(split_path(path@)[j - 1]),
        decreases n - i,
    {
        if !valid_seg_str(parts[i].as_str()) {
            proof {
                assert(!valid_seg_chars(split_path(path@)[i as int]));
            }
            return Err(Error::StorageKey(String::from_str("invalid key path: ").concat(path)));
        }
        let part = parts[i].clone();
        segments.push(DbKeySeg::StringSeg(part));
        i += 1;
    }
    let k = Key { segments };
    proof {
        assert(k@ =~= path_key(split_path(path@)));
    }
    Ok(k)
}

} // verus!
