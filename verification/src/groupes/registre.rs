//! A keyed store that remembers the order in which its entries came.
//!
//! Every registry of the crate is one of these. Entries are found by a
//! 32-bit key, no key occurs twice, and walking the store always yields the
//! entries in insertion order, so that "the first match" is well defined.

use vstd::prelude::*;
use vstd::set_lib::lemma_len_subset;

verus! {

/// The key that follows `x`, wrapping from the largest key back to zero.
pub open spec fn suivant(x: u32) -> u32 {
    if x == u32::MAX {
        0
    } else {
        (x + 1) as u32
    }
}

/// The key reached from `graine` after `n` steps of [`suivant`].
pub open spec fn decale(graine: u32, n: int) -> u32 {
    ((graine + n) % 0x1_0000_0000) as u32
}

/// The number of steps of [`suivant`] that lead from `graine` to `cle`.
pub open spec fn distance(graine: u32, cle: u32) -> int {
    (cle - graine) % 0x1_0000_0000
}

/// The first key that `prises` does not hold, trying `graine`, then each
/// following key in turn, wrapping around the 32-bit space.
pub open spec fn premier_libre(prises: Set<u32>, graine: u32) -> u32
    decreases prises.len(),
{
    if prises.finite() && prises.contains(graine) {
        premier_libre(prises.remove(graine), suivant(graine))
    } else {
        graine
    }
}

/// The keys `graine`, `graine + 1`, ... of the first `n` probes.
pub open spec fn sondes(graine: u32, n: int) -> Set<u32> {
    Set::new(|c: u32| 0 <= distance(graine, c) < n)
}

proof fn lemme_sondes_finies(graine: u32, n: int)
    requires
        0 <= n <= 0x1_0000_0000,
    ensures
        sondes(graine, n).finite(),
        sondes(graine, n).len() == n,
    decreases n,
{
    if n == 0 {
        assert(sondes(graine, 0) =~= Set::<u32>::empty());
    } else {
        lemme_sondes_finies(graine, n - 1);
        let c = decale(graine, n - 1);
        assert(distance(graine, c) == n - 1);
        assert(sondes(graine, n) =~= sondes(graine, n - 1).insert(c)) by {
            assert forall|x: u32| sondes(graine, n).contains(x) implies sondes(
                graine,
                n - 1,
            ).insert(c).contains(x) by {
                if distance(graine, x) == n - 1 {
                    assert(x == c);
                }
            }
        }
    }
}

/// What [`premier_libre`] returns, said directly: a key that `prises` lacks,
/// such that every key probed before it is taken.
pub proof fn lemme_premier_libre(prises: Set<u32>, graine: u32)
    requires
        prises.finite(),
        prises.len() < 0x1_0000_0000,
    ensures
        !prises.contains(premier_libre(prises, graine)),
        forall|j: int|
            0 <= j < distance(graine, premier_libre(prises, graine)) ==> prises.contains(
                #[trigger] decale(graine, j),
            ),
    decreases prises.len(),
{
    if prises.contains(graine) {
        let reste = prises.remove(graine);
        let s = suivant(graine);
        lemme_premier_libre(reste, s);
        let r = premier_libre(reste, s);
        assert(r == premier_libre(prises, graine));
        if r == graine {
            // Every other key would then be taken: the store would be full.
            assert forall|c: u32| c != graine implies reste.contains(c) by {
                let j = distance(s, c);
                assert(decale(s, j) == c);
                assert(0 <= j < distance(s, r));
            }
            lemme_sondes_finies(s, 0xFFFF_FFFF);
            assert(sondes(s, 0xFFFF_FFFF).subset_of(reste)) by {
                assert forall|c: u32| sondes(s, 0xFFFF_FFFF).contains(c) implies reste.contains(
                    c,
                ) by {
                    assert(distance(s, graine) == 0xFFFF_FFFF);
                }
            }
            lemma_len_subset(sondes(s, 0xFFFF_FFFF), reste);
            assert(false);
        }
        assert forall|j: int| 0 <= j < distance(graine, r) implies prises.contains(
            #[trigger] decale(graine, j),
        ) by {
            if j > 0 {
                assert(decale(graine, j) == decale(s, j - 1));
                assert(0 <= j - 1 < distance(s, r));
            }
        }
    }
}

/// A store of items of type `T` under 32-bit keys, in insertion order.
pub struct Registre<T> {
    cles: Vec<u32>,
    items: Vec<T>,
}

impl<T> Registre<T> {
    /// The keys, oldest entry first.
    pub closed spec fn cles(&self) -> Seq<u32> {
        self.cles@
    }

    /// The items, each at the position of its key in [`Self::cles`].
    pub closed spec fn items(&self) -> Seq<T> {
        self.items@
    }

    /// Each key has its item, and no key occurs twice.
    pub open spec fn wf(&self) -> bool {
        &&& self.cles().len() == self.items().len()
        &&& self.cles().no_duplicates()
    }

    /// Whether an entry stands under `cle`.
    pub open spec fn contient(&self, cle: u32) -> bool {
        self.cles().contains(cle)
    }

    /// The position of the entry under `cle`.
    pub open spec fn rang(&self, cle: u32) -> int {
        self.cles().index_of(cle)
    }

    /// The item under `cle`.
    pub open spec fn item(&self, cle: u32) -> T {
        self.items()[self.rang(cle)]
    }

    /// An empty store.
    pub fn new() -> (r: Self)
        ensures
            r.wf(),
            r.cles() == Seq::<u32>::empty(),
            r.items() == Seq::<T>::empty(),
    {
        Registre { cles: Vec::new(), items: Vec::new() }
    }

    /// The number of entries.
    pub fn len(&self) -> (n: usize)
        requires
            self.wf(),
        ensures
            n == self.cles().len(),
            n == self.items().len(),
    {
        self.cles.len()
    }

    /// The position of `cle` among the keys, if it is there.
    pub fn position(&self, cle: u32) -> (r: Option<usize>)
        requires
            self.wf(),
        ensures
            r is Some <==> self.contient(cle),
            r matches Some(i) ==> i == self.rang(cle) && i < self.cles().len(),
    {
        let mut i: usize = 0;
        while i < self.cles.len()
            invariant
                self.wf(),
                i <= self.cles.len(),
                forall|j: int| 0 <= j < i ==> self.cles@[j] != cle,
            decreases self.cles.len() - i,
        {
            if self.cles[i] == cle {
                assert(self.cles@[self.rang(cle)] == cle);
                return Some(i);
            }
            i += 1;
        }
        None
    }

    /// Whether an entry stands under `cle`.
    pub fn contains(&self, cle: u32) -> (b: bool)
        requires
            self.wf(),
        ensures
            b == self.contient(cle),
    {
        self.position(cle).is_some()
    }

    /// The key at position `i`.
    pub fn cle_a(&self, i: usize) -> (c: u32)
        requires
            self.wf(),
            i < self.cles().len(),
        ensures
            c == self.cles()[i as int],
    {
        self.cles[i]
    }

    /// The item at position `i`.
    pub fn item_a(&self, i: usize) -> (r: &T)
        requires
            self.wf(),
            i < self.items().len(),
        ensures
            *r == self.items()[i as int],
    {
        &self.items[i]
    }

    /// The item at position `i`, to be changed in place. Keys stay as they are.
    pub fn item_mut_a(&mut self, i: usize) -> (r: &mut T)
        requires
            old(self).wf(),
            i < old(self).items().len(),
        ensures
            *r == old(self).items()[i as int],
            final(self).cles() == old(self).cles(),
            final(self).items() == old(self).items().update(i as int, *final(r)),
            final(self).wf(),
    {
        &mut self.items[i]
    }

    /// The item under `cle`, if there is one.
    pub fn get(&self, cle: u32) -> (r: Option<&T>)
        requires
            self.wf(),
        ensures
            r is Some <==> self.contient(cle),
            r matches Some(t) ==> *t == self.item(cle),
    {
        match self.position(cle) {
            Some(i) => Some(&self.items[i]),
            None => None,
        }
    }

    /// The item under `cle`, if there is one, to be changed in place. Keys
    /// and all other items stay as they are.
    pub fn get_mut(&mut self, cle: u32) -> (r: Option<&mut T>)
        requires
            old(self).wf(),
        ensures
            final(self).wf(),
            final(self).cles() == old(self).cles(),
            r is Some <==> old(self).contient(cle),
            match r {
                Some(t) => *t == old(self).item(cle) && final(self).items() == old(
                    self,
                ).items().update(old(self).rang(cle), *final(t)),
                None => final(self).items() == old(self).items(),
            },
    {
        match self.position(cle) {
            Some(i) => Some(&mut self.items[i]),
            None => None,
        }
    }

    /// Enters `item` under `cle` behind all present entries, unless the key is
    /// taken: then nothing changes and the item comes back.
    pub fn add(&mut self, cle: u32, item: T) -> (r: Result<(), T>)
        requires
            old(self).wf(),
        ensures
            final(self).wf(),
            r is Err <==> old(self).contient(cle),
            match r {
                Ok(_) => final(self).cles() == old(self).cles().push(cle) && final(self).items()
                    == old(self).items().push(item),
                Err(t) => t == item && *final(self) == *old(self),
            },
    {
        if self.contains(cle) {
            Err(item)
        } else {
            self.cles.push(cle);
            self.items.push(item);
            Ok(())
        }
    }

    /// Takes the entry under `cle` out and returns its item; the entries behind
    /// it move up by one.
    pub fn remove(&mut self, cle: u32) -> (r: Option<T>)
        requires
            old(self).wf(),
        ensures
            final(self).wf(),
            r is Some <==> old(self).contient(cle),
            match r {
                Some(t) => {
                    &&& t == old(self).item(cle)
                    &&& final(self).cles() == old(self).cles().remove(old(self).rang(cle))
                    &&& final(self).items() == old(self).items().remove(old(self).rang(cle))
                    &&& !final(self).contient(cle)
                },
                None => *final(self) == *old(self),
            },
    {
        match self.position(cle) {
            Some(i) => {
                let _c: u32 = self.cles.remove(i);
                let t = self.items.remove(i);
                proof {
                    let avant = old(self).cles();
                    let apres = self.cles@;
                    assert(apres =~= avant.remove(i as int));
                    assert forall|a: int, b: int|
                        0 <= a < apres.len() && 0 <= b < apres.len() && a != b implies apres[a]
                        != apres[b] by {
                        let a2 = if a < i { a } else { a + 1 };
                        let b2 = if b < i { b } else { b + 1 };
                        assert(apres[a] == avant[a2] && apres[b] == avant[b2]);
                    }
                    if apres.contains(cle) {
                        let a = choose|a: int| 0 <= a < apres.len() && apres[a] == cle;
                        let a2 = if a < i { a } else { a + 1 };
                        assert(avant[a2] == cle && avant[i as int] == cle);
                    }
                }
                Some(t)
            },
            None => None,
        }
    }

    /// The first free key from `graine` on: `graine` itself if it is free, else
    /// the next free one, wrapping around after the largest key.
    pub fn premiere_cle_libre(&self, graine: u32) -> (c: u32)
        requires
            self.wf(),
            self.cles().len() < 0x1_0000_0000,
        ensures
            c == premier_libre(self.cles().to_set(), graine),
            !self.contient(c),
            forall|j: int|
                0 <= j < distance(graine, c) ==> self.contient(#[trigger] decale(graine, j)),
    {
        let ghost prises = self.cles@.to_set();
        proof {
            self.cles@.lemma_cardinality_of_set();
            self.cles@.unique_seq_to_set();
            lemme_premier_libre(prises, graine);
        }
        let mut c: u32 = graine;
        let ghost mut reste = prises;
        while self.contains(c)
            invariant
                self.wf(),
                prises == self.cles().to_set(),
                reste.finite(),
                reste.subset_of(prises),
                reste.contains(c) == prises.contains(c),
                premier_libre(reste, c) == premier_libre(prises, graine),
                !prises.contains(premier_libre(prises, graine)),
            decreases reste.len(),
        {
            proof {
                let r = premier_libre(prises, graine);
                let apres = reste.remove(c);
                assert(premier_libre(apres, suivant(c)) == r);
                // The next probe cannot be one already tried: the walk would
                // then end on a taken key.
                if !apres.contains(suivant(c)) && prises.contains(suivant(c)) {
                    assert(premier_libre(apres, suivant(c)) == suivant(c));
                    assert(false);
                }
                reste = apres;
            }
            c = c.wrapping_add(1);
        }
        c
    }
}

/// What the merge of new records goes by in a registry: the identifiers in
/// insertion order and, at the same positions, the keys by which two records
/// count as the same.
pub struct Etat<K> {
    pub ids: Seq<u32>,
    pub cles: Seq<K>,
}

impl<K> Etat<K> {
    /// Each identifier has its key, and no identifier occurs twice.
    pub open spec fn wf(self) -> bool {
        self.ids.len() == self.cles.len() && self.ids.no_duplicates()
    }
}

/// Whether `i` is the first position at which `cles` holds `k`.
pub open spec fn est_premier_rang<K>(cles: Seq<K>, k: K, i: int) -> bool {
    &&& 0 <= i < cles.len()
    &&& cles[i] == k
    &&& forall|j: int| 0 <= j < i ==> cles[j] != k
}

/// The first position at which `cles` holds `k`, if it holds it at all.
pub open spec fn premier_rang<K>(cles: Seq<K>, k: K) -> Option<int> {
    if cles.contains(k) {
        Some(choose|i: int| est_premier_rang(cles, k, i))
    } else {
        None
    }
}

proof fn lemme_premier_existe<K>(cles: Seq<K>, k: K, borne: int)
    requires
        0 <= borne < cles.len(),
        cles[borne] == k,
    ensures
        exists|i: int| est_premier_rang(cles, k, i),
    decreases borne,
{
    if forall|j: int| 0 <= j < borne ==> cles[j] != k {
        assert(est_premier_rang(cles, k, borne));
    } else {
        let j = choose|j: int| 0 <= j < borne && cles[j] == k;
        lemme_premier_existe(cles, k, j);
    }
}

/// A position that holds `k` with none before it that does is the one that
/// [`premier_rang`] gives.
pub proof fn lemme_premier_rang<K>(cles: Seq<K>, k: K, i: int)
    requires
        est_premier_rang(cles, k, i),
    ensures
        premier_rang(cles, k) == Some(i),
{
    let c = choose|c: int| est_premier_rang(cles, k, c);
    assert(est_premier_rang(cles, k, c));
    if c < i {
        assert(cles[c] != k);
    }
    if i < c {
        assert(cles[i] != k);
    }
}

/// Where `cles` holds `k`, [`premier_rang`] gives the first position that does.
pub proof fn lemme_premier_rang_present<K>(cles: Seq<K>, k: K)
    requires
        cles.contains(k),
    ensures
        premier_rang(cles, k) is Some,
        est_premier_rang(cles, k, premier_rang(cles, k)->0),
{
    let b = choose|b: int| 0 <= b < cles.len() && cles[b] == k;
    lemme_premier_existe(cles, k, b);
}

/// Where no position of `cles` holds `k`, [`premier_rang`] gives nothing.
pub proof fn lemme_premier_rang_absent<K>(cles: Seq<K>, k: K)
    requires
        forall|j: int| 0 <= j < cles.len() ==> cles[j] != k,
    ensures
        premier_rang(cles, k) is None,
{
}

/// The merge of one record with key `k` and own identifier `graine`: the state
/// afterwards and the identifier that the record goes by. A record whose key
/// is known changes nothing and goes by the identifier of the first record
/// with that key. Any other record is entered at the end, under the first
/// free identifier from `graine` on.
pub open spec fn resolution<K>(e: Etat<K>, graine: u32, k: K) -> (Etat<K>, u32) {
    match premier_rang(e.cles, k) {
        Some(i) => (e, e.ids[i]),
        None => {
            let id = premier_libre(e.ids.to_set(), graine);
            (Etat { ids: e.ids.push(id), cles: e.cles.push(k) }, id)
        },
    }
}

/// The position of the record that a record with key `k` goes by once it is
/// merged into `e`: that of the first record with that key, or the end.
pub open spec fn rang_resolu<K>(e: Etat<K>, k: K) -> int {
    match premier_rang(e.cles, k) {
        Some(i) => i,
        None => e.cles.len() as int,
    }
}

/// The merge of the records `cands`, each given by its own identifier and its
/// key, one after the other.
pub open spec fn importe<K>(e: Etat<K>, cands: Seq<(u32, K)>) -> Etat<K>
    decreases cands.len(),
{
    if cands.len() == 0 {
        e
    } else {
        resolution(importe(e, cands.drop_last()), cands.last().0, cands.last().1).0
    }
}

/// A merge never forgets: whatever key the state held, and the key merged,
/// are held afterwards, and the records that were there keep their place.
pub proof fn lemme_resolution_garde<K>(e: Etat<K>, graine: u32, k: K)
    ensures
        resolution(e, graine, k).0.cles.contains(k),
        forall|x: K| e.cles.contains(x) ==> resolution(e, graine, k).0.cles.contains(x),
        e.cles.len() <= resolution(e, graine, k).0.cles.len() <= e.cles.len() + 1,
        e.cles.contains(k) ==> resolution(e, graine, k).0 == e,
{
    let apres = resolution(e, graine, k).0;
    if e.cles.contains(k) {
        lemme_premier_rang_present(e.cles, k);
    } else {
        assert(apres.cles =~= e.cles.push(k));
        assert(apres.cles[e.cles.len() as int] == k);
        assert forall|x: K| e.cles.contains(x) implies apres.cles.contains(x) by {
            let i = choose|i: int| 0 <= i < e.cles.len() && e.cles[i] == x;
            assert(apres.cles[i] == x);
        }
    }
}

/// A merge of several records never forgets either.
pub proof fn lemme_importe_garde<K>(e: Etat<K>, cands: Seq<(u32, K)>)
    ensures
        forall|x: K| e.cles.contains(x) ==> importe(e, cands).cles.contains(x),
        forall|i: int| 0 <= i < cands.len() ==> importe(e, cands).cles.contains(cands[i].1),
        e.cles.len() <= importe(e, cands).cles.len() <= e.cles.len() + cands.len(),
    decreases cands.len(),
{
    if cands.len() > 0 {
        let debut = cands.drop_last();
        lemme_importe_garde(e, debut);
        let milieu = importe(e, debut);
        lemme_resolution_garde(milieu, cands.last().0, cands.last().1);
        assert forall|i: int| 0 <= i < cands.len() implies importe(e, cands).cles.contains(
            cands[i].1,
        ) by {
            if i < cands.len() - 1 {
                assert(debut[i] == cands[i]);
            }
        }
    }
}

/// Records whose keys are all known change nothing when they are merged.
pub proof fn lemme_importe_connus<K>(e: Etat<K>, cands: Seq<(u32, K)>)
    requires
        forall|i: int| 0 <= i < cands.len() ==> e.cles.contains(cands[i].1),
    ensures
        importe(e, cands) == e,
    decreases cands.len(),
{
    if cands.len() > 0 {
        let debut = cands.drop_last();
        assert forall|i: int| 0 <= i < debut.len() implies e.cles.contains(debut[i].1) by {
            assert(debut[i] == cands[i]);
        }
        lemme_importe_connus(e, debut);
        lemme_resolution_garde(e, cands.last().0, cands.last().1);
    }
}

/// Merging the same records a second time changes nothing: the registry holds
/// the same records under the same identifiers, and so as many, as after the
/// first time.
pub proof fn loi_import_idempotent<K>(e: Etat<K>, cands: Seq<(u32, K)>)
    ensures
        importe(importe(e, cands), cands) == importe(e, cands),
        importe(importe(e, cands), cands).ids.len() == importe(e, cands).ids.len(),
{
    lemme_importe_garde(e, cands);
    lemme_importe_connus(importe(e, cands), cands);
}

/// A merge keeps a sound state sound, as long as an identifier is free.
pub proof fn lemme_resolution_wf<K>(e: Etat<K>, graine: u32, k: K)
    requires
        e.wf(),
        e.ids.len() < 0x1_0000_0000,
    ensures
        resolution(e, graine, k).0.wf(),
        resolution(e, graine, k).0.ids.contains(resolution(e, graine, k).1),
        resolution(e, graine, k).0.cles[resolution(e, graine, k).0.ids.index_of(
            resolution(e, graine, k).1,
        )] == k,
        !e.cles.contains(k) ==> !e.ids.contains(resolution(e, graine, k).1),
{
    let (apres, id) = resolution(e, graine, k);
    if e.cles.contains(k) {
        lemme_premier_rang_present(e.cles, k);
        let i = premier_rang(e.cles, k)->0;
        assert(e.ids[i] == id);
        assert(e.ids[e.ids.index_of(id)] == id);
    } else {
        e.ids.lemma_cardinality_of_set();
        e.ids.unique_seq_to_set();
        lemme_premier_libre(e.ids.to_set(), graine);
        assert(!e.ids.contains(id));
        assert(apres.ids =~= e.ids.push(id));
        let n = e.ids.len() as int;
        assert(apres.ids[n] == id);
        assert(apres.ids[apres.ids.index_of(id)] == id);
        assert forall|a: int, b: int|
            0 <= a < apres.ids.len() && 0 <= b < apres.ids.len() && a != b implies apres.ids[a]
            != apres.ids[b] by {
            if a == n {
                assert(e.ids.contains(e.ids[b]));
            } else if b == n {
                assert(e.ids.contains(e.ids[a]));
            }
        }
    }
}

/// Two different records whose identifiers are drawn from the same number do
/// not collide. The first takes the first free identifier from that number
/// on; the second takes the next free one, which is the number plus one where
/// the first took the number itself and the one after it was free. Both are
/// in the registry afterwards, each under its own identifier.
pub proof fn loi_collision<K>(e: Etat<K>, graine: u32, k1: K, k2: K)
    requires
        e.wf(),
        e.ids.len() + 1 < 0x1_0000_0000,
        k1 != k2,
        !e.cles.contains(k1),
        !e.cles.contains(k2),
    ensures
        ({
            let (e1, id1) = resolution(e, graine, k1);
            let (e2, id2) = resolution(e1, graine, k2);
            &&& id1 != id2
            &&& e2.wf()
            &&& e2.ids.len() == e.ids.len() + 2
            &&& id1 == premier_libre(e.ids.to_set(), graine)
            &&& id2 == premier_libre(e.ids.to_set().insert(id1), graine)
            &&& !e.ids.contains(graine) ==> id1 == graine
            &&& !e.ids.contains(graine) && !e.ids.contains(suivant(graine)) ==> id2 == suivant(
                graine,
            )
            &&& e2.ids.contains(id1) && e2.cles[e2.ids.index_of(id1)] == k1
            &&& e2.ids.contains(id2) && e2.cles[e2.ids.index_of(id2)] == k2
        }),
{
    let (e1, id1) = resolution(e, graine, k1);
    lemme_resolution_wf(e, graine, k1);
    assert(e1.cles =~= e.cles.push(k1));
    assert(e1.ids =~= e.ids.push(id1));
    assert(!e1.cles.contains(k2)) by {
        if e1.cles.contains(k2) {
            let i = choose|i: int| 0 <= i < e1.cles.len() && e1.cles[i] == k2;
            if i < e.cles.len() {
                assert(e.cles[i] == k2);
            }
        }
    }
    let (e2, id2) = resolution(e1, graine, k2);
    lemme_resolution_wf(e1, graine, k2);
    assert(e2.ids =~= e1.ids.push(id2));
    assert(e2.cles =~= e1.cles.push(k2));
    let n = e.ids.len() as int;
    assert(e2.ids[n] == id1 && e2.ids[n + 1] == id2);
    assert(e2.ids[e2.ids.index_of(id1)] == id1);
    assert(e2.ids[e2.ids.index_of(id2)] == id2);
    assert(e1.ids.to_set() =~= e.ids.to_set().insert(id1)) by {
        assert forall|x: u32| e1.ids.to_set().contains(x) implies e.ids.to_set().insert(
            id1,
        ).contains(x) by {
            let i = choose|i: int| 0 <= i < e1.ids.len() && e1.ids[i] == x;
            if i < n {
                assert(e.ids[i] == x);
            }
        }
        assert forall|x: u32| e.ids.to_set().insert(id1).contains(x) implies e1.ids.to_set().contains(
            x,
        ) by {
            if x == id1 {
                assert(e1.ids[n] == x);
            } else {
                let i = choose|i: int| 0 <= i < e.ids.len() && e.ids[i] == x;
                assert(e1.ids[i] == x);
            }
        }
    }
    if !e.ids.contains(graine) && !e.ids.contains(suivant(graine)) {
        assert(id1 == graine);
        let s1 = e1.ids.to_set();
        e1.ids.lemma_cardinality_of_set();
        assert(s1.contains(graine));
        assert(!s1.remove(graine).contains(suivant(graine)));
        assert(premier_libre(s1.remove(graine), suivant(graine)) == suivant(graine));
    }
}

/// Whether the state `b` is the state `a` with more records behind it.
pub open spec fn prefixe<K>(a: Etat<K>, b: Etat<K>) -> bool {
    &&& a.ids.len() <= b.ids.len()
    &&& a.cles.len() <= b.cles.len()
    &&& forall|i: int| 0 <= i < a.ids.len() ==> b.ids[i] == a.ids[i]
    &&& forall|i: int| 0 <= i < a.cles.len() ==> b.cles[i] == a.cles[i]
}

/// A merge only adds records, behind those that are there; a state in which
/// each identifier has its key stays so.
pub proof fn lemme_resolution_prefixe<K>(e: Etat<K>, graine: u32, k: K)
    ensures
        prefixe(e, resolution(e, graine, k).0),
        e.ids.len() == e.cles.len() ==> resolution(e, graine, k).0.ids.len() == resolution(
            e,
            graine,
            k,
        ).0.cles.len(),
{
}

/// A record that is merged is found again under the same identifier, in the
/// state that the merge leaves and in any state with more records behind it.
pub proof fn lemme_resolution_stable<K>(e: Etat<K>, graine: u32, k: K, b: Etat<K>)
    requires
        e.ids.len() == e.cles.len(),
        prefixe(resolution(e, graine, k).0, b),
    ensures
        resolution(b, graine, k) == (b, resolution(e, graine, k).1),
{
    let (e1, id) = resolution(e, graine, k);
    lemme_resolution_garde(e, graine, k);
    lemme_premier_rang_present(e1.cles, k);
    let i = premier_rang(e1.cles, k)->0;
    assert(e1.ids[i] == id) by {
        if e.cles.contains(k) {
        } else {
            let n = e.cles.len() as int;
            assert(e1.cles[n] == k);
            if i < n {
                assert(e.cles[i] == k);
            }
            lemme_premier_rang(e1.cles, k, n);
        }
    }
    assert(est_premier_rang(b.cles, k, i)) by {
        assert(b.cles[i] == e1.cles[i]);
        assert forall|j: int| 0 <= j < i implies b.cles[j] != k by {
            assert(b.cles[j] == e1.cles[j]);
        }
    }
    lemme_premier_rang(b.cles, k, i);
    assert(b.cles.contains(k));
}

/// Where a merged record stands: at the position that [`rang_resolu`] gives,
/// under the identifier that the merge gives, in the state that the merge
/// leaves and in any state with more records behind it.
pub proof fn lemme_rang_resolu<K>(e: Etat<K>, graine: u32, k: K, b: Etat<K>)
    requires
        e.ids.len() == e.cles.len(),
        prefixe(resolution(e, graine, k).0, b),
    ensures
        0 <= rang_resolu(e, k) < resolution(e, graine, k).0.ids.len(),
        resolution(e, graine, k).0.ids[rang_resolu(e, k)] == resolution(e, graine, k).1,
        b.ids[rang_resolu(e, k)] == resolution(e, graine, k).1,
        premier_rang(b.cles, k) is Some,
        rang_resolu(b, k) == rang_resolu(e, k),
{
    let (e1, id) = resolution(e, graine, k);
    let r = rang_resolu(e, k);
    if e.cles.contains(k) {
        lemme_premier_rang_present(e.cles, k);
    } else {
        assert(e1.cles[r] == k);
    }
    assert(est_premier_rang(e1.cles, k, r));
    assert(est_premier_rang(b.cles, k, r)) by {
        assert(b.cles[r] == e1.cles[r]);
        assert forall|j: int| 0 <= j < r implies b.cles[j] != k by {
            assert(b.cles[j] == e1.cles[j]);
        }
    }
    lemme_premier_rang(b.cles, k, r);
    assert(b.ids[r] == e1.ids[r]);
}

} // verus!
