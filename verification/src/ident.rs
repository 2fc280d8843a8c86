//! Structured protocol identifiers and the decimal grammar used to render
//! numeric identifiers (sequences, heights) into key segments.

use vstd::prelude::*;
use vstd::string::StrSliceExecFns;
use vstd::string::StringExecFns;

verus! {

/// The decimal digit character for a value below ten.
pub open spec fn digit_char(d: nat) -> char {
    if d == 0 { '0' } else if d == 1 { '1' } else if d == 2 { '2' }
    else if d == 3 { '3' } else if d == 4 { '4' } else if d == 5 { '5' }
    else if d == 6 { '6' } else if d == 7 { '7' } else if d == 8 { '8' }
    else { '9' }
}

/// Whether a character is a decimal digit.
pub open spec fn is_digit(c: char) -> bool {
    c == '0' || c == '1' || c == '2' || c == '3' || c == '4'
    || c == '5' || c == '6' || c == '7' || c == '8' || c == '9'
}

/// The numeric value of a decimal digit character.
pub open spec fn digit_val(c: char) -> nat {
    if c == '0' { 0 } else if c == '1' { 1 } else if c == '2' { 2 }
    else if c == '3' { 3 } else if c == '4' { 4 } else if c == '5' { 5 }
    else if c == '6' { 6 } else if c == '7' { 7 } else if c == '8' { 8 }
    else { 9 }
}

/// The canonical decimal rendering of a number: no sign, no leading zeros
/// (except the single digit of zero itself).
pub open spec fn dec_digits(n: nat) -> Seq<char>
    decreases n,
{
    if n < 10 {
        seq![digit_char(n)]
    } else {
        dec_digits(n / 10).push(digit_char(n % 10))
    }
}

/// A non-empty sequence of decimal digit characters.
pub open spec fn is_dec_seq(s: Seq<char>) -> bool {
    s.len() > 0 && forall|i: int| 0 <= i < s.len() ==> is_digit(s[i])
}

/// The numeric value of a digit sequence, most significant digit first.
pub open spec fn dec_val(s: Seq<char>) -> nat
    decreases s.len(),
{
    if s.len() == 0 {
        0
    } else {
        dec_val(s.drop_last()) * 10 + digit_val(s.last())
    }
}

/// The canonical rendering consists of digits and evaluates back to the
/// number it renders.
pub proof fn lemma_dec_digits(n: nat)
    ensures
        is_dec_seq(dec_digits(n)),
        dec_val(dec_digits(n)) == n,
    decreases n,
{
    if n < 10 {
        assert(dec_digits(n) =~= seq![digit_char(n)]);
        assert(dec_digits(n).drop_last() =~= Seq::<char>::empty());
        assert(dec_digits(n).last() == digit_char(n));
        assert(digit_val(digit_char(n)) == n);
        assert(dec_val(dec_digits(n)) == dec_val(Seq::<char>::empty()) * 10 + digit_val(digit_char(n)));
    } else {
        lemma_dec_digits(n / 10);
        let s = dec_digits(n / 10);
        assert(s.push(digit_char(n % 10)).drop_last() =~= s);
        assert(dec_val(dec_digits(n)) == (n / 10) * 10 + (n % 10));
        assert((n / 10) * 10 + (n % 10) == n) by (nonlinear_arith);
        assert forall|i: int| 0 <= i < dec_digits(n).len() implies is_digit(
            dec_digits(n)[i],
        ) by {
            if i < s.len() {
                assert(dec_digits(n)[i] == s[i]);
            }
        }
    }
}

/// The value of a digit sequence is at least the value of any of its
/// prefixes.
pub proof fn lemma_dec_val_take(s: Seq<char>, i: int)
    requires
        0 <= i <= s.len(),
        forall|j: int| 0 <= j < s.len() ==> is_digit(s[j]),
    ensures
        dec_val(s.take(i)) <= dec_val(s),
    decreases s.len() - i,
{
    if i < s.len() {
        lemma_dec_val_take(s, i + 1);
        assert(s.take(i + 1).drop_last() =~= s.take(i));
        assert(dec_val(s.take(i + 1)) == dec_val(s.take(i)) * 10 + digit_val(s.take(i + 1).last()));
        assert(dec_val(s.take(i)) <= dec_val(s.take(i)) * 10) by (nonlinear_arith);
    } else {
        assert(s.take(i) =~= s);
    }
}

/// The one-character string for a decimal digit.
fn digit_to_str(d: u64) -> (r: &'static str)
    requires
        d < 10,
    ensures
        r@ == seq![digit_char(d as nat)],
{
    proof {
        reveal_strlit("0");
        reveal_strlit("1");
        reveal_strlit("2");
        reveal_strlit("3");
        reveal_strlit("4");
        reveal_strlit("5");
        reveal_strlit("6");
        reveal_strlit("7");
        reveal_strlit("8");
        reveal_strlit("9");
    }
    let r: &'static str = if d == 0 { "0" } else if d == 1 { "1" } else if d == 2 { "2" }
    else if d == 3 { "3" } else if d == 4 { "4" } else if d == 5 { "5" }
    else if d == 6 { "6" } else if d == 7 { "7" } else if d == 8 { "8" }
    else { "9" };
    proof {
        assert(r@ =~= seq![digit_char(d as nat)]);
    }
    r
}

/// Renders a number in its canonical decimal form.
pub fn u64_to_dec(n: u64) -> (s: String)
    ensures
        s@ == dec_digits(n as nat),
    decreases n,
{
    if n < 10 {
        String::from_str(digit_to_str(n))
    } else {
        let s = u64_to_dec(n / 10);
        let out = s.concat(digit_to_str(n % 10));
        proof {
            assert(out@ =~= dec_digits(n as nat));
        }
        out
    }
}

/// Character-exact string equality.
pub fn str_eq(a: &str, b: &str) -> (r: bool)
    ensures
        r == (a@ == b@),
{
    let alen = a.unicode_len();
    let blen = b.unicode_len();
    if alen != blen {
        return false;
    }
    let mut i: usize = 0;
    while i < alen
        invariant
            i <= alen,
            alen == a@.len(),
            alen == b@.len(),
            forall|j: int| 0 <= j < i ==> a@[j] == b@[j],
        decreases alen - i,
    {
        if a.get_char(i) != b.get_char(i) {
            return false;
        }
        i += 1;
    }
    proof {
        assert(a@ =~= b@);
    }
    true
}

/// Parses a digit sequence to its value; fails on a non-digit, on an empty
/// string, and on overflow.
pub fn parse_dec(s: &str) -> (r: Option<u64>)
    ensures
        r matches Some(n) ==> is_dec_seq(s@) && n as nat == dec_val(s@),
        r is None ==> !(is_dec_seq(s@) && dec_val(s@) <= u64::MAX),
{
    let len = s.unicode_len();
    if len == 0 {
        return None;
    }
    let mut acc: u64 = 0;
    let mut i: usize = 0;
    while i < len
        invariant
            0 < len == s@.len(),
            i <= len,
            forall|j: int| 0 <= j < i ==> is_digit(s@[j]),
            acc as nat == dec_val(s@.take(i as int)),
        decreases len - i,
    {
        let c = s.get_char(i);
        let d: u64 = if c == '0' { 0 } else if c == '1' { 1 } else if c == '2' { 2 }
        else if c == '3' { 3 } else if c == '4' { 4 } else if c == '5' { 5 }
        else if c == '6' { 6 } else if c == '7' { 7 } else if c == '8' { 8 }
        else if c == '9' { 9 } else {
            proof {
                assert(!is_digit(s@[i as int]));
            }
            return None;
        };
        if acc > (u64::MAX - d) / 10 {
            proof {
                assert(s@.take(i + 1).drop_last() =~= s@.take(i as int));
                assert(dec_val(s@.take(i + 1)) == acc as nat * 10 + d as nat);
                assert(acc as nat * 10 + d as nat > u64::MAX) by (nonlinear_arith)
                    requires
                        acc > (u64::MAX - d) / 10,
                        d < 10,
                ;
                if is_dec_seq(s@) {
                    lemma_dec_val_take(s@, i + 1);
                }
            }
            return None;
        }
        proof {
            assert(acc as nat * 10 + d as nat <= u64::MAX) by (nonlinear_arith)
                requires
                    acc <= (u64::MAX - d) / 10,
                    d < 10,
            ;
            assert(s@.take(i + 1).drop_last() =~= s@.take(i as int));
        }
        acc = acc * 10 + d;
        i += 1;
    }
    proof {
        assert(s@.take(len as int) =~= s@);
    }
    Some(acc)
}

/// Accepts exactly the canonical decimal rendering of a number, and rejects
/// every other string.
pub fn decode_dec_canonical(s: &str) -> (r: Option<u64>)
    ensures
        r matches Some(n) ==> s@ == dec_digits(n as nat),
        r is None ==> forall|n: u64| s@ != dec_digits(n as nat),
{
    match parse_dec(s) {
        Some(n) => {
            let rendered = u64_to_dec(n);
            if str_eq(s, rendered.as_str()) {
                Some(n)
            } else {
                proof {
                    assert forall|m: u64| s@ != dec_digits(m as nat) by {
                        if s@ == dec_digits(m as nat) {
                            lemma_dec_digits(m as nat);
                        }
                    }
                }
                None
            }
        },
        None => {
            proof {
                assert forall|m: u64| s@ != dec_digits(m as nat) by {
                    if s@ == dec_digits(m as nat) {
                        lemma_dec_digits(m as nat);
                    }
                }
            }
            None
        },
    }
}

/// A string usable as a single key segment: non-empty, free of the segment
/// separator, and not marked as an address segment.
pub open spec fn valid_seg_chars(s: Seq<char>) -> bool {
    &&& s.len() > 0
    &&& s[0] != '#'
    &&& forall|i: int| 0 <= i < s.len() ==> s[i] != '/'
}

/// Checks segment validity over the characters of a string.
pub fn valid_seg_str(s: &str) -> (r: bool)
    ensures
        r == valid_seg_chars(s@),
{
    let len = s.unicode_len();
    if len == 0 {
        return false;
    }
    if s.get_char(0) == '#' {
        return false;
    }
    let mut i: usize = 0;
    while i < len
        invariant
            len == s@.len(),
            i <= len,
            forall|j: int| 0 <= j < i ==> s@[j] != '/',
        decreases len - i,
    {
        if s.get_char(i) == '/' {
            return false;
        }
        i += 1;
    }
    true
}

/// The rendering of a height as `<revision-number>-<revision-height>`.
pub open spec fn height_chars(rn: u64, rh: u64) -> Seq<char> {
    dec_digits(rn as nat) + seq!['-'] + dec_digits(rh as nat)
}

/// Two equal height renderings come from the same height: the dash separator
/// cannot occur inside either decimal part.
pub proof fn lemma_height_chars_inj(a: u64, b: u64, c: u64, d: u64)
    requires
        height_chars(a, b) == height_chars(c, d),
    ensures
        a == c,
        b == d,
{
    lemma_dec_digits(a as nat);
    lemma_dec_digits(b as nat);
    lemma_dec_digits(c as nat);
    lemma_dec_digits(d as nat);
    let s = height_chars(a, b);
    let la = dec_digits(a as nat).len() as int;
    let lc = dec_digits(c as nat).len() as int;
    assert(s[la] == '-');
    assert(height_chars(c, d)[lc] == '-');
    if la < lc {
        assert(height_chars(c, d)[la] == dec_digits(c as nat)[la]);
        assert(is_digit(dec_digits(c as nat)[la]));
        assert(false);
    }
    if lc < la {
        assert(s[lc] == dec_digits(a as nat)[lc]);
        assert(is_digit(dec_digits(a as nat)[lc]));
        assert(false);
    }
    assert(dec_digits(a as nat) =~= dec_digits(c as nat)) by {
        assert forall|i: int| 0 <= i < la implies dec_digits(a as nat)[i] == dec_digits(
            c as nat,
        )[i] by {
            assert(s[i] == dec_digits(a as nat)[i]);
            assert(height_chars(c, d)[i] == dec_digits(c as nat)[i]);
        }
    }
    assert(a as nat == dec_val(dec_digits(a as nat)));
    assert(c as nat == dec_val(dec_digits(c as nat)));
    assert(dec_digits(b as nat) =~= dec_digits(d as nat)) by {
        assert(s.len() == la + 1 + dec_digits(b as nat).len());
        assert forall|i: int| 0 <= i < dec_digits(b as nat).len() implies dec_digits(
            b as nat,
        )[i] == dec_digits(d as nat)[i] by {
            assert(s[la + 1 + i] == dec_digits(b as nat)[i]);
            assert(height_chars(c, d)[la + 1 + i] == dec_digits(d as nat)[i]);
        }
    }
    assert(b as nat == dec_val(dec_digits(b as nat)));
    assert(d as nat == dec_val(dec_digits(d as nat)));
}

/// Renders a height as `<revision-number>-<revision-height>`.
pub fn height_to_dec(rn: u64, rh: u64) -> (s: String)
    ensures
        s@ == height_chars(rn, rh),
{
    proof {
        reveal_strlit("-");
    }
    let left = u64_to_dec(rn);
    let right = u64_to_dec(rh);
    let out = left.concat("-").concat(right.as_str());
    proof {
        assert(out@ =~= height_chars(rn, rh));
    }
    out
}

/// Accepts exactly the canonical rendering of a height, and rejects every
/// other string.
pub fn parse_height(s: &str) -> (r: Option<(u64, u64)>)
    ensures
        r matches Some(p) ==> s@ == height_chars(p.0, p.1),
        r is None ==> forall|rn: u64, rh: u64| s@ != height_chars(rn, rh),
{
    let len = s.unicode_len();
    let mut i: usize = 0;
    let mut dash: Option<usize> = None;
    while i < len
        invariant
            len == s@.len(),
            i <= len,
            dash matches Some(k) ==> k < i && s@[k as int] == '-' && forall|j: int|
                0 <= j < k ==> s@[j] != '-',
            dash is None ==> forall|j: int| 0 <= j < i ==> s@[j] != '-',
        decreases len - i,
    {
        if dash.is_none() && s.get_char(i) == '-' {
            dash = Some(i);
        }
        i += 1;
    }
    match dash {
        None => {
            proof {
                assert forall|rn: u64, rh: u64| s@ != height_chars(rn, rh) by {
                    if s@ == height_chars(rn, rh) {
                        lemma_dec_digits(rn as nat);
                        let la = dec_digits(rn as nat).len() as int;
                        assert(s@[la] == '-');
                    }
                }
            }
            None
        },
        Some(di) => {
            let left = s.substring_char(0, di);
            let right = s.substring_char(di + 1, len);
            let da = decode_dec_canonical(left);
            let db = decode_dec_canonical(right);
            match (da, db) {
                (Some(a), Some(b)) => {
                    proof {
                        assert(s@ =~= height_chars(a, b));
                    }
                    Some((a, b))
                },
                _ => {
                    proof {
                        assert forall|rn: u64, rh: u64| s@ != height_chars(rn, rh) by {
                            if s@ == height_chars(rn, rh) {
                                lemma_dec_digits(rn as nat);
                                lemma_dec_digits(rh as nat);
                                let la = dec_digits(rn as nat).len() as int;
                                assert(s@[la] == '-');
                                assert forall|j: int| 0 <= j < la implies s@[j] != '-' by {
                                    assert(s@[j] == dec_digits(rn as nat)[j]);
                                    assert(is_digit(dec_digits(rn as nat)[j]));
                                }
                                if di < la {
                                    assert(s@[di as int] == '-');
                                    assert(false);
                                }
                                if la < di {
                                    assert(s@[la] != '-');
                                    assert(false);
                                }
                                assert(left@ =~= dec_digits(rn as nat));
                                assert(right@ =~= dec_digits(rh as nat));
                            }
                        }
                    }
                    None
                },
            }
        },
    }
}

/// A client identifier: a validated printable label.
#[derive(Clone, Debug, PartialEq, Eq)]
pub struct ClientId(pub String);

impl View for ClientId {
    type V = Seq<char>;

    open spec fn view(&self) -> Seq<char> {
        self.0@
    }
}

impl ClientId {
    /// Whether the identifier can stand as a single key segment.
    pub open spec fn valid(self) -> bool {
        valid_seg_chars(self@)
    }

    /// Wraps a label, rejecting one that cannot stand as a key segment.
    pub fn new(id: String) -> (r: Option<ClientId>)
        ensures
            r matches Some(c) ==> c@ == id@ && c.valid(),
            r is None ==> !valid_seg_chars(id@),
    {
        if valid_seg_str(id.as_str()) {
            Some(ClientId(id))
        } else {
            None
        }
    }

    /// The identifier's textual form.
    pub fn as_str(&self) -> (r: &str)
        ensures
            r@ == self@,
    {
        self.0.as_str()
    }
}

/// A connection identifier: a validated printable label.
#[derive(Clone, Debug, PartialEq, Eq)]
pub struct ConnectionId(pub String);

impl View for ConnectionId {
    type V = Seq<char>;

    open spec fn view(&self) -> Seq<char> {
        self.0@
    }
}

impl ConnectionId {
    /// Whether the identifier can stand as a single key segment.
    pub open spec fn valid(self) -> bool {
        valid_seg_chars(self@)
    }

    /// Wraps a label, rejecting one that cannot stand as a key segment.
    pub fn new(id: String) -> (r: Option<ConnectionId>)
        ensures
            r matches Some(c) ==> c@ == id@ && c.valid(),
            r is None ==> !valid_seg_chars(id@),
    {
        if valid_seg_str(id.as_str()) {
            Some(ConnectionId(id))
        } else {
            None
        }
    }

    /// The identifier's textual form.
    pub fn as_str(&self) -> (r: &str)
        ensures
            r@ == self@,
    {
        self.0.as_str()
    }
}

/// A port identifier: a validated printable label.
#[derive(Clone, Debug, PartialEq, Eq)]
pub struct PortId(pub String);

impl View for PortId {
    type V = Seq<char>;

    open spec fn view(&self) -> Seq<char> {
        self.0@
    }
}

impl PortId {
    /// Whether the identifier can stand as a single key segment.
    pub open spec fn valid(self) -> bool {
        valid_seg_chars(self@)
    }

    /// Wraps a label, rejecting one that cannot stand as a key segment.
    pub fn new(id: String) -> (r: Option<PortId>)
        ensures
            r matches Some(c) ==> c@ == id@ && c.valid(),
            r is None ==> !valid_seg_chars(id@),
    {
        if valid_seg_str(id.as_str()) {
            Some(PortId(id))
        } else {
            None
        }
    }

    /// The identifier's textual form.
    pub fn as_str(&self) -> (r: &str)
        ensures
            r@ == self@,
    {
        self.0.as_str()
    }
}

/// A channel identifier: a validated printable label.
#[derive(Clone, Debug, PartialEq, Eq)]
pub struct ChannelId(pub String);

impl View for ChannelId {
    type V = Seq<char>;

    open spec fn view(&self) -> Seq<char> {
        self.0@
    }
}

impl ChannelId {
    /// Whether the identifier can stand as a single key segment.
    pub open spec fn valid(self) -> bool {
        valid_seg_chars(self@)
    }

    /// Wraps a label, rejecting one that cannot stand as a key segment.
    pub fn new(id: String) -> (r: Option<ChannelId>)
        ensures
            r matches Some(c) ==> c@ == id@ && c.valid(),
            r is None ==> !valid_seg_chars(id@),
    {
        if valid_seg_str(id.as_str()) {
            Some(ChannelId(id))
        } else {
            None
        }
    }

    /// The identifier's textual form.
    pub fn as_str(&self) -> (r: &str)
        ensures
            r@ == self@,
    {
        self.0.as_str()
    }
}

/// A per-channel monotonic packet ordering number.
#[derive(Clone, Copy, Debug, PartialEq, Eq, Structural)]
pub struct Sequence(pub u64);

/// A client height: a revision number and a height within that revision.
#[derive(Clone, Copy, Debug, PartialEq, Eq, Structural)]
pub struct Height {
    /// The revision (chain era) number.
    pub revision_number: u64,
    /// The height within the revision.
    pub revision_height: u64,
}

/// An NFT class identifier, possibly prefixed by a trace path; it is only
/// ever hashed, never placed in a key segment directly.
#[derive(Clone, Debug, PartialEq, Eq)]
pub struct PrefixedClassId(pub String);

impl View for PrefixedClassId {
    type V = Seq<char>;

    open spec fn view(&self) -> Seq<char> {
        self.0@
    }
}

impl PrefixedClassId {
    /// The identifier's textual form.
    pub fn as_str(&self) -> (r: &str)
        ensures
            r@ == self@,
    {
        self.0.as_str()
    }
}

/// An NFT token identifier within a class; it is only ever hashed, never
/// placed in a key segment directly.
#[derive(Clone, Debug, PartialEq, Eq)]
pub struct TokenId(pub String);

impl View for TokenId {
    type V = Seq<char>;

    open spec fn view(&self) -> Seq<char> {
        self.0@
    }
}

impl TokenId {
    /// The identifier's textual form.
    pub fn as_str(&self) -> (r: &str)
        ensures
            r@ == self@,
    {
        self.0.as_str()
    }
}

} // verus!
