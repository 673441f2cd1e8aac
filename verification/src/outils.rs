//! Odds and ends that the rest of the crate shares.

use crate::texte::{majuscules, minuscules, pousse_car, rogne, to_lowercase, to_uppercase, trim};
use vstd::prelude::*;

verus! {

/// `t` with its first character in upper case.
pub open spec fn capitalise(t: Seq<char>) -> Seq<char> {
    if t.len() == 0 {
        t
    } else {
        majuscules(seq![t[0]]) + t.drop_first()
    }
}

/// `s` with its first character in upper case.
pub fn capitalize(s: &str) -> (r: String)
    ensures
        r@ == capitalise(s@),
{
    let mut r = String::new();
    let mut premier = true;
    for c in it: s.chars()
        invariant
            it.seq() == s@,
            premier == (it.index() == 0),
            r@ == capitalise(s@.take(it.index() as int)),
    {
        if premier {
            let mut un = String::new();
            pousse_car(&mut un, c);
            assert(un@ =~= seq![s@[0]]);
            r = to_uppercase(un.as_str());
            premier = false;
            assert(s@.take(1).drop_first() =~= Seq::<char>::empty());
            assert(r@ =~= capitalise(s@.take(1)));
        } else {
            pousse_car(&mut r, c);
            assert(s@.take(it.index() + 1).drop_first() =~= s@.take(
                it.index() as int,
            ).drop_first().push(c));
            assert(r@ =~= capitalise(s@.take(it.index() + 1)));
        }
    }
    assert(s@.take(s@.len() as int) =~= s@);
    r
}

/// Something whose value can be exchanged for another.
pub trait Swap: Sized {
    /// What stays in place of `self` when `other` is swapped in.
    spec fn apres(self, other: Self) -> Self;

    /// Puts `other` in the place of `self`, unless `other` is nothing: then
    /// the place is emptied. Gives what was there.
    fn swap(&mut self, other: Self) -> (r: Self)
        ensures
            r == *old(self),
            *final(self) == old(self).apres(other),
    ;
}

impl<T> Swap for Option<T> {
    open spec fn apres(self, other: Self) -> Self {
        other
    }

    fn swap(&mut self, other: Self) -> (r: Self) {
        let mut autre = other;
        std::mem::swap(self, &mut autre);
        autre
    }
}

/// The number that the lower-case letters `t` write as the name of a
/// spreadsheet column, "a" being column 1 and "aa" column 27; nothing if `t`
/// holds anything but lower-case ASCII letters.
pub open spec fn numero_colonne(t: Seq<char>) -> Option<nat>
    decreases t.len(),
{
    if t.len() == 0 {
        Some(0)
    } else {
        match numero_colonne(t.drop_last()) {
            Some(n) => if 'a' <= t.last() <= 'z' {
                Some(n * 26 + (t.last() as u32 - 96) as nat)
            } else {
                None
            },
            None => None,
        }
    }
}

/// The number of the column that the lower-case letters `t` name, if they
/// name one and the number fits in 32 bits.
pub open spec fn colonne_nommee(t: Seq<char>) -> Option<u32> {
    match numero_colonne(t) {
        Some(n) => if n <= u32::MAX {
            Some(n as u32)
        } else {
            None
        },
        None => None,
    }
}

/// The number of the spreadsheet column that the lower-case letters `bas`
/// name: "a" is column 1, "z" column 26, "aa" column 27. Nothing if `bas`
/// holds anything but lower-case letters, or if the number does not fit in 32
/// bits.
pub fn col_to_num(bas: &str) -> (r: Option<u32>)
    ensures
        r == colonne_nommee(bas@),
{
    let mut n: u32 = 0;
    let ghost t = bas@;
    for c in it: bas.chars()
        invariant
            it.seq() == t,
            t == bas@,
            numero_colonne(t.take(it.index() as int)) == Some(n as nat),
    {
        proof {
            assert(t.take(it.index() + 1).drop_last() =~= t.take(it.index() as int));
            assert(t.take(it.index() + 1).last() == c);
        }
        if !('a' <= c && c <= 'z') {
            proof {
                assert(numero_colonne(t.take(it.index() + 1)) is None);
                lemme_colonne_perdue(t, it.index() + 1);
            }
            return None;
        }
        let d: u32 = c as u32 - 96;
        if n > (u32::MAX - d) / 26 {
            proof {
                assert(numero_colonne(t.take(it.index() + 1)) == Some((n * 26 + d) as nat));
                lemme_colonne_croit(t, it.index() + 1);
            }
            return None;
        }
        n = n * 26 + d;
    }
    assert(t.take(t.len() as int) =~= t);
    Some(n)
}

/// The number of the spreadsheet column named `col`, whatever the case of its
/// letters and the white space around them: "A" is column 1, "Z" column 26,
/// "AA" column 27. Nothing if the name holds anything but letters, or if the
/// number does not fit in 32 bits.
pub fn excel_col_to_num(col: &str) -> (r: Option<u32>)
    ensures
        r == colonne_nommee(minuscules(rogne(col@))),
{
    let bas = to_lowercase(trim(col));
    col_to_num(bas.as_str())
}

/// A name that is no column name stays none when more is written behind it.
pub proof fn lemme_colonne_perdue(t: Seq<char>, k: int)
    requires
        0 <= k <= t.len(),
        numero_colonne(t.take(k)) is None,
    ensures
        numero_colonne(t) is None,
    decreases t.len() - k,
{
    if k < t.len() {
        assert(t.take(k + 1).drop_last() =~= t.take(k));
        lemme_colonne_perdue(t, k + 1);
    } else {
        assert(t.take(k) =~= t);
    }
}

/// A longer column name never stands for a smaller number.
pub proof fn lemme_colonne_croit(t: Seq<char>, k: int)
    requires
        0 <= k <= t.len(),
        numero_colonne(t.take(k)) is Some,
    ensures
        numero_colonne(t) matches Some(n) ==> n >= numero_colonne(t.take(k))->0,
    decreases t.len() - k,
{
    if k < t.len() {
        assert(t.take(k + 1).drop_last() =~= t.take(k));
        if numero_colonne(t.take(k + 1)) is Some {
            lemme_colonne_croit(t, k + 1);
        } else {
            lemme_colonne_perdue(t, k + 1);
        }
    } else {
        assert(t.take(k) =~= t);
    }
}

} // verus!
