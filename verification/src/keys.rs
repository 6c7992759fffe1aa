//! Key encoding: the canonical plate format and its storage form.
//!
//! A plate is stored with its dash separators stripped. The display
//! form is recovered positionally: a seven-character storage form
//! splits 3 / 4; a longer one splits 3 / 2-or-3 / 2 / remainder, where
//! the middle group has two characters exactly when the character at
//! index three of the storage form — the first one after the leading
//! group — is a digit, and three otherwise. Only plates in the
//! canonical dashed format round-trip; callers must supply them.

use vstd::prelude::*;

use crate::dates::is_digit;

verus! {

/// The storage form of a plate: the plate with every dash removed.
pub open spec fn spec_strip_dashes(s: Seq<char>) -> Seq<char>
    decreases s.len(),
{
    if s.len() == 0 {
        Seq::empty()
    } else {
        spec_strip_dashes(s.drop_last()) + if s.last() == '-' {
            Seq::<char>::empty()
        } else {
            seq![s.last()]
        }
    }
}

/// Removes every dash from a plate, giving its storage form.
pub fn strip_dashes(s: &str) -> (r: String)
    ensures
        r@ == spec_strip_dashes(s@),
{
    let len = s.unicode_len();
    let mut out = String::new();
    let mut i: usize = 0;
    while i < len
        invariant
            i <= len,
            len == s@.len(),
            out@ == spec_strip_dashes(s@.subrange(0, i as int)),
        decreases len - i,
    {
        let c = s.get_char(i);
        if c != '-' {
            let one = s.substring_char(i, i + 1);
            assert(one@ =~= seq![s@[i as int]]);
            out.append(one);
        }
        proof {
            assert(s@.subrange(0, i + 1).drop_last() =~= s@.subrange(0, i as int));
            assert(s@.subrange(0, i + 1).last() == s@[i as int]);
        }
        i = i + 1;
    }
    proof {
        assert(s@.subrange(0, len as int) =~= s@);
    }
    out
}

/// The display form recovered from a storage form `n`: `None` when `n`
/// is too short to come from any canonical plate.
pub open spec fn spec_plate_display(n: Seq<char>) -> Option<Seq<char>> {
    if n.len() == 7 {
        Some(n.subrange(0, 3) + seq!['-'] + n.subrange(3, 7))
    } else if n.len() >= 8 {
        if is_digit(n[3]) {
            Some(
                n.subrange(0, 3) + seq!['-'] + n.subrange(3, 5) + seq!['-'] + n.subrange(5, 7)
                    + seq!['-'] + n.subrange(7, n.len() as int),
            )
        } else {
            Some(
                n.subrange(0, 3) + seq!['-'] + n.subrange(3, 6) + seq!['-'] + n.subrange(6, 8)
                    + seq!['-'] + n.subrange(8, n.len() as int),
            )
        }
    } else {
        None
    }
}

/// Re-inserts the dashes of a stored plate; see [`spec_plate_display`].
pub fn plate_display(n: &str) -> (r: Option<String>)
    ensures
        r is Some <==> spec_plate_display(n@) is Some,
        r matches Some(s) ==> spec_plate_display(n@) == Some(s@),
{
    proof {
        reveal_strlit("-");
    }
    let len = n.unicode_len();
    if len == 7 {
        let mut s = n.substring_char(0, 3).to_owned();
        s.append("-");
        s.append(n.substring_char(3, 7));
        assert(s@ =~= spec_plate_display(n@).unwrap());
        Some(s)
    } else if len >= 8 {
        let c = n.get_char(3);
        if '0' <= c && c <= '9' {
            let mut s = n.substring_char(0, 3).to_owned();
            s.append("-");
            s.append(n.substring_char(3, 5));
            s.append("-");
            s.append(n.substring_char(5, 7));
            s.append("-");
            s.append(n.substring_char(7, len));
            assert(is_digit(n@[3]));
            assert(s@ =~= spec_plate_display(n@).unwrap());
            Some(s)
        } else {
            let mut s = n.substring_char(0, 3).to_owned();
            s.append("-");
            s.append(n.substring_char(3, 6));
            s.append("-");
            s.append(n.substring_char(6, 8));
            s.append("-");
            s.append(n.substring_char(8, len));
            assert(!is_digit(n@[3]));
            assert(s@ =~= spec_plate_display(n@).unwrap());
            Some(s)
        }
    } else {
        None
    }
}

/// The canonical dashed plate format. Three forms exist: a short plate
/// `XXX-XXXX`; a long plate whose two-character middle group starts
/// with a digit; and a long plate whose three-character middle group
/// starts with a non-digit. The side condition on the middle group's
/// first character makes the storage form unambiguous.
pub open spec fn canonical_plate(p: Seq<char>) -> bool {
    canonical_plate_short(p) || canonical_plate_long2(p) || canonical_plate_long3(p)
}

/// `XXX-XXXX`: three characters, a dash, four characters, none a dash.
pub open spec fn canonical_plate_short(p: Seq<char>) -> bool {
    &&& p.len() == 8
    &&& p[3] == '-'
    &&& forall|i: int| 0 <= i < 8 && i != 3 ==> p[i] != '-'
}

/// `XXX-XX-XX-X...`: the two-character middle group starts with a
/// digit.
pub open spec fn canonical_plate_long2(p: Seq<char>) -> bool {
    &&& p.len() >= 11
    &&& p[3] == '-'
    &&& p[6] == '-'
    &&& p[9] == '-'
    &&& is_digit(p[4])
    &&& forall|i: int| 0 <= i < p.len() && i != 3 && i != 6 && i != 9 ==> p[i] != '-'
}

/// `XXX-XXX-XX-X...`: the three-character middle group starts with a
/// non-digit.
pub open spec fn canonical_plate_long3(p: Seq<char>) -> bool {
    &&& p.len() >= 12
    &&& p[3] == '-'
    &&& p[7] == '-'
    &&& p[10] == '-'
    &&& !is_digit(p[4])
    &&& forall|i: int| 0 <= i < p.len() && i != 3 && i != 7 && i != 10 ==> p[i] != '-'
}

/// Stripping distributes over concatenation.
proof fn lemma_strip_concat(a: Seq<char>, b: Seq<char>)
    ensures
        spec_strip_dashes(a + b) == spec_strip_dashes(a) + spec_strip_dashes(b),
    decreases b.len(),
{
    if b.len() == 0 {
        assert(a + b =~= a);
        assert(spec_strip_dashes(a) + spec_strip_dashes(b) =~= spec_strip_dashes(a));
    } else {
        lemma_strip_concat(a, b.drop_last());
        assert((a + b).drop_last() =~= a + b.drop_last());
        assert((a + b).last() == b.last());
    }
}

/// A sequence without dashes strips to itself.
proof fn lemma_strip_no_dashes(s: Seq<char>)
    requires
        forall|i: int| 0 <= i < s.len() ==> s[i] != '-',
    ensures
        spec_strip_dashes(s) == s,
    decreases s.len(),
{
    if s.len() > 0 {
        lemma_strip_no_dashes(s.drop_last());
        assert(spec_strip_dashes(s) =~= s);
    }
}

proof fn lemma_strip_dash_only()
    ensures
        spec_strip_dashes(seq!['-']) == Seq::<char>::empty(),
{
    assert(spec_strip_dashes(Seq::<char>::empty()) =~= Seq::<char>::empty());
    assert(seq!['-'].drop_last() =~= Seq::<char>::empty());
    assert(seq!['-'].last() == '-');
    assert(spec_strip_dashes(seq!['-']) =~= Seq::<char>::empty());
}

/// Plate round trip: a canonical plate survives storage. Stripping its
/// dashes and re-inserting them positionally gives the plate back.
pub proof fn lemma_plate_round_trip(p: Seq<char>)
    requires
        canonical_plate(p),
    ensures
        spec_plate_display(spec_strip_dashes(p)) == Some(p),
{
    lemma_strip_dash_only();
    let dash = seq!['-'];
    if canonical_plate_short(p) {
        let g1 = p.subrange(0, 3);
        let g4 = p.subrange(4, 8);
        assert(p =~= g1 + dash + g4);
        lemma_strip_concat(g1 + dash, g4);
        lemma_strip_concat(g1, dash);
        lemma_strip_no_dashes(g1);
        lemma_strip_no_dashes(g4);
        let n = spec_strip_dashes(p);
        assert(n =~= g1 + g4);
        assert(n.len() == 7);
        assert(n.subrange(0, 3) =~= g1);
        assert(n.subrange(3, 7) =~= g4);
        assert(spec_plate_display(n).unwrap() =~= p);
    } else if canonical_plate_long2(p) {
        let g1 = p.subrange(0, 3);
        let g2 = p.subrange(4, 6);
        let g3 = p.subrange(7, 9);
        let g4 = p.subrange(10, p.len() as int);
        assert(p =~= g1 + dash + g2 + dash + g3 + dash + g4);
        lemma_strip_concat(g1 + dash + g2 + dash + g3 + dash, g4);
        lemma_strip_concat(g1 + dash + g2 + dash + g3, dash);
        lemma_strip_concat(g1 + dash + g2 + dash, g3);
        lemma_strip_concat(g1 + dash + g2, dash);
        lemma_strip_concat(g1 + dash, g2);
        lemma_strip_concat(g1, dash);
        lemma_strip_no_dashes(g1);
        lemma_strip_no_dashes(g2);
        lemma_strip_no_dashes(g3);
        lemma_strip_no_dashes(g4);
        let n = spec_strip_dashes(p);
        assert(n =~= g1 + g2 + g3 + g4);
        assert(n.len() >= 8);
        assert(n[3] == p[4]);
        assert(is_digit(n[3]));
        assert(n.subrange(0, 3) =~= g1);
        assert(n.subrange(3, 5) =~= g2);
        assert(n.subrange(5, 7) =~= g3);
        assert(n.subrange(7, n.len() as int) =~= g4);
        assert(spec_plate_display(n).unwrap() =~= p);
    } else {
        let g1 = p.subrange(0, 3);
        let g2 = p.subrange(4, 7);
        let g3 = p.subrange(8, 10);
        let g4 = p.subrange(11, p.len() as int);
        assert(p =~= g1 + dash + g2 + dash + g3 + dash + g4);
        lemma_strip_concat(g1 + dash + g2 + dash + g3 + dash, g4);
        lemma_strip_concat(g1 + dash + g2 + dash + g3, dash);
        lemma_strip_concat(g1 + dash + g2 + dash, g3);
        lemma_strip_concat(g1 + dash + g2, dash);
        lemma_strip_concat(g1 + dash, g2);
        lemma_strip_concat(g1, dash);
        lemma_strip_no_dashes(g1);
        lemma_strip_no_dashes(g2);
        lemma_strip_no_dashes(g3);
        lemma_strip_no_dashes(g4);
        let n = spec_strip_dashes(p);
        assert(n =~= g1 + g2 + g3 + g4);
        assert(n.len() >= 9);
        assert(n[3] == p[4]);
        assert(!is_digit(n[3]));
        assert(n.subrange(0, 3) =~= g1);
        assert(n.subrange(3, 6) =~= g2);
        assert(n.subrange(6, 8) =~= g3);
        assert(n.subrange(8, n.len() as int) =~= g4);
        assert(spec_plate_display(n).unwrap() =~= p);
    }
}

/// Prefixes a string, building keys such as `USER#<name>`.
pub fn prefixed(prefix: &str, rest: &str) -> (r: String)
    ensures
        r@ == prefix@ + rest@,
{
    let mut s = prefix.to_owned();
    s.append(rest);
    s
}

/// Character-wise string equality.
pub fn str_eq(a: &str, b: &str) -> (r: bool)
    ensures
        r == (a@ == b@),
{
    let x = a.to_owned();
    let y = b.to_owned();
    x == y
}

/// `p` is a prefix of `s`.
pub open spec fn has_prefix(s: Seq<char>, p: Seq<char>) -> bool {
    p.len() <= s.len() && s.subrange(0, p.len() as int) == p
}

pub fn str_has_prefix(s: &str, p: &str) -> (r: bool)
    ensures
        r == has_prefix(s@, p@),
{
    let sl = s.unicode_len();
    let pl = p.unicode_len();
    if pl > sl {
        return false;
    }
    str_eq(s.substring_char(0, pl), p)
}

/// The remainder of `s` after a prefix of length `n`.
pub fn str_after(s: &str, n: usize) -> (r: String)
    requires
        n <= s@.len(),
    ensures
        r@ == s@.subrange(n as int, s@.len() as int),
{
    let len = s.unicode_len();
    s.substring_char(n, len).to_owned()
}

} // verus!
