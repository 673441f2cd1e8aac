//! Text building blocks: characters appended to a `String`, and numbers
//! written out in decimal and in hexadecimal.

use vstd::prelude::*;

verus! {

/// `String::push`: appends one character at the end of `s`.
#[verifier::external_body]
pub(crate) fn pousse_car(s: &mut String, c: char)
    ensures
        final(s)@ == old(s)@.push(c),
{
    s.push(c)
}

/// The character that stands for the hexadecimal digit `d`, in lower case.
pub open spec fn chiffre_hex(d: int) -> char {
    if d < 10 {
        (0x30 + d) as char
    } else {
        (0x61 + d - 10) as char
    }
}

/// The eight lower-case hexadecimal digits of `n`, most significant first.
pub open spec fn hex8(n: u32) -> Seq<char> {
    let v = n as int;
    seq![
        chiffre_hex((v / 0x1000_0000) % 16),
        chiffre_hex((v / 0x100_0000) % 16),
        chiffre_hex((v / 0x10_0000) % 16),
        chiffre_hex((v / 0x1_0000) % 16),
        chiffre_hex((v / 0x1000) % 16),
        chiffre_hex((v / 0x100) % 16),
        chiffre_hex((v / 0x10) % 16),
        chiffre_hex(v % 16),
    ]
}

fn car_hex(d: u32) -> (c: char)
    requires
        d < 16,
    ensures
        c == chiffre_hex(d as int),
{
    let b: u8 = d as u8;
    if b < 10 {
        (0x30u8 + b) as char
    } else {
        (0x61u8 + (b - 10)) as char
    }
}

/// Appends `n` to `s` as eight lower-case hexadecimal digits.
pub fn ecrit_hex8(s: &mut String, n: u32)
    ensures
        final(s)@ == old(s)@ + hex8(n),
{
    pousse_car(s, car_hex((n / 0x1000_0000) % 16));
    pousse_car(s, car_hex((n / 0x100_0000) % 16));
    pousse_car(s, car_hex((n / 0x10_0000) % 16));
    pousse_car(s, car_hex((n / 0x1_0000) % 16));
    pousse_car(s, car_hex((n / 0x1000) % 16));
    pousse_car(s, car_hex((n / 0x100) % 16));
    pousse_car(s, car_hex((n / 0x10) % 16));
    pousse_car(s, car_hex(n % 16));
    assert(s@ =~= old(s)@ + hex8(n));
}

/// The character that stands for the decimal digit `d`.
pub open spec fn chiffre(d: int) -> char {
    (0x30 + d) as char
}

/// The decimal digits of `n`, most significant first, without leading zeros;
/// zero is written "0".
pub open spec fn decimal(n: nat) -> Seq<char>
    decreases n,
{
    if n < 10 {
        seq![chiffre(n as int)]
    } else {
        decimal(n / 10).push(chiffre((n % 10) as int))
    }
}

/// A number as `{}` prints it: a minus sign before the digits of a negative one.
pub open spec fn decimal_signe(n: int) -> Seq<char> {
    if n < 0 {
        seq!['-'] + decimal((-n) as nat)
    } else {
        decimal(n as nat)
    }
}

/// Appends the decimal digits of `n` to `s`.
pub fn ecrit_decimal(s: &mut String, n: u64)
    ensures
        final(s)@ == old(s)@ + decimal(n as nat),
    decreases n,
{
    if n >= 10 {
        ecrit_decimal(s, n / 10);
    }
    pousse_car(s, (0x30u8 + (n % 10) as u8) as char);
    assert(s@ =~= old(s)@ + decimal(n as nat));
}

/// Appends `n` to `s` in decimal, with a minus sign if it is negative.
pub fn ecrit_decimal_signe(s: &mut String, n: i64)
    ensures
        final(s)@ == old(s)@ + decimal_signe(n as int),
{
    if n < 0 {
        pousse_car(s, '-');
        let m: u64 = if n == i64::MIN {
            0x8000_0000_0000_0000u64
        } else {
            (-n) as u64
        };
        ecrit_decimal(s, m);
        assert(s@ =~= old(s)@ + decimal_signe(n as int));
    } else {
        ecrit_decimal(s, n as u64);
    }
}

/// What an optional text holds, as a sequence of characters.
pub open spec fn vue_opt(o: Option<String>) -> Option<Seq<char>> {
    match o {
        Some(s) => Some(s@),
        None => None,
    }
}

/// Whether two string slices hold the same characters.
pub fn str_egal(a: &str, b: &str) -> (r: bool)
    ensures
        r == (a@ == b@),
{
    let x = a.to_owned();
    let y = b.to_owned();
    x == y
}

/// Whether two optional texts are both absent, or both present with the same
/// characters.
pub fn opt_texte_egal(a: &Option<String>, b: &Option<String>) -> (r: bool)
    ensures
        r == (vue_opt(*a) == vue_opt(*b)),
{
    match (a, b) {
        (Some(x), Some(y)) => *x == *y,
        (None, None) => true,
        _ => false,
    }
}

/// The text that the ASCII bytes `octets` spell.
pub open spec fn texte_ascii(octets: Seq<u8>) -> Seq<char> {
    Seq::new(octets.len(), |i: int| octets[i] as char)
}

/// Appends the characters that the ASCII bytes of `octets` spell.
pub fn ecrit_ascii(s: &mut String, octets: &[u8])
    requires
        forall|i: int| 0 <= i < octets@.len() ==> octets@[i] < 128,
    ensures
        final(s)@ == old(s)@ + texte_ascii(octets@),
{
    let mut i: usize = 0;
    while i < octets.len()
        invariant
            i <= octets@.len(),
            s@ == old(s)@ + texte_ascii(octets@).subrange(0, i as int),
        decreases octets@.len() - i,
    {
        pousse_car(s, octets[i] as char);
        assert(texte_ascii(octets@).subrange(0, i + 1) =~= texte_ascii(octets@).subrange(
            0,
            i as int,
        ).push(octets@[i as int] as char));
        i += 1;
    }
    assert(texte_ascii(octets@).subrange(0, i as int) =~= texte_ascii(octets@));
}

/// An optional text as it is printed: the text itself, or "NONE".
pub open spec fn texte_option(o: Option<Seq<char>>) -> Seq<char> {
    match o {
        None => "NONE"@,
        Some(t) => t,
    }
}

/// An optional text as it is printed: the text itself, or "NONE".
pub fn print_option(opt: &Option<String>) -> (s: String)
    ensures
        s@ == texte_option(vue_opt(*opt)),
{
    match opt {
        None => "NONE".to_owned(),
        Some(t) => t.clone(),
    }
}

/// Whether `c` is white space: a character with the Unicode property
/// White_Space.
pub open spec fn est_blanc(c: char) -> bool {
    let n = c as u32;
    ||| 0x09 <= n <= 0x0d
    ||| n == 0x20
    ||| n == 0x85
    ||| n == 0xa0
    ||| n == 0x1680
    ||| 0x2000 <= n <= 0x200a
    ||| n == 0x2028
    ||| n == 0x2029
    ||| n == 0x202f
    ||| n == 0x205f
    ||| n == 0x3000
}

/// `t` without the white space at its start.
pub open spec fn rogne_debut(t: Seq<char>) -> Seq<char>
    decreases t.len(),
{
    if t.len() > 0 && est_blanc(t[0]) {
        rogne_debut(t.drop_first())
    } else {
        t
    }
}

/// `t` without the white space at its end.
pub open spec fn rogne_fin(t: Seq<char>) -> Seq<char>
    decreases t.len(),
{
    if t.len() > 0 && est_blanc(t.last()) {
        rogne_fin(t.drop_last())
    } else {
        t
    }
}

/// `t` without the white space at its start and at its end.
pub open spec fn rogne(t: Seq<char>) -> Seq<char> {
    rogne_fin(rogne_debut(t))
}

/// `str::trim`: the slice of `s` that is left when the white space at both
/// ends is taken away, white space being the characters with the Unicode
/// property White_Space.
#[verifier::external_body]
pub(crate) fn trim(s: &str) -> (r: &str)
    ensures
        r@ == rogne(s@),
{
    s.trim()
}

/// The lower-case form that Unicode gives to the text `t`.
pub uninterp spec fn minuscules(t: Seq<char>) -> Seq<char>;

/// `str::to_lowercase`: the lower-case form of `s` by the Unicode tables.
#[verifier::external_body]
pub(crate) fn to_lowercase(s: &str) -> (r: String)
    ensures
        r@ == minuscules(s@),
{
    s.to_lowercase()
}

/// The upper-case form that Unicode gives to the text `t`.
pub uninterp spec fn majuscules(t: Seq<char>) -> Seq<char>;

/// `str::to_uppercase`: the upper-case form of `s` by the Unicode tables.
#[verifier::external_body]
pub(crate) fn to_uppercase(s: &str) -> (r: String)
    ensures
        r@ == majuscules(s@),
{
    s.to_uppercase()
}

/// Whether `c` is one of the ten ASCII digits.
pub open spec fn est_chiffre_car(c: char) -> bool {
    '0' <= c <= '9'
}

/// Whether `t` holds nothing but ASCII digits.
pub open spec fn tous_chiffres(t: Seq<char>) -> bool {
    forall|i: int| 0 <= i < t.len() ==> est_chiffre_car(#[trigger] t[i])
}

/// The number that the decimal digits `t` write.
pub open spec fn valeur(t: Seq<char>) -> nat
    decreases t.len(),
{
    if t.len() == 0 {
        0
    } else {
        10 * valeur(t.drop_last()) + (t.last() as u8 - 0x30) as nat
    }
}

/// The whole number that `t` writes in decimal, if it writes one: digits,
/// with "+" or "-" before them if need be, and nothing else.
pub open spec fn entier_ecrit(t: Seq<char>) -> Option<int> {
    if t.len() == 0 {
        None
    } else if t[0] == '-' || t[0] == '+' {
        if t.len() > 1 && tous_chiffres(t.drop_first()) {
            if t[0] == '-' {
                Some(-(valeur(t.drop_first()) as int))
            } else {
                Some(valeur(t.drop_first()) as int)
            }
        } else {
            None
        }
    } else if tous_chiffres(t) {
        Some(valeur(t) as int)
    } else {
        None
    }
}

/// The number that `t` writes, if it writes one that lies between `min` and
/// `max`.
pub open spec fn entier_borne(t: Seq<char>, min: int, max: int) -> Option<int> {
    match entier_ecrit(t) {
        Some(v) => if min <= v <= max {
            Some(v)
        } else {
            None
        },
        None => None,
    }
}

/// More digits never write a smaller number.
pub proof fn lemme_valeur_croit(t: Seq<char>, n: int)
    requires
        0 <= n <= t.len(),
    ensures
        valeur(t.take(n)) <= valeur(t),
    decreases t.len() - n,
{
    if n < t.len() {
        lemme_valeur_croit(t, n + 1);
        assert(t.take(n + 1).drop_last() =~= t.take(n));
    } else {
        assert(t.take(n) =~= t);
    }
}

/// An ASCII character and its byte are the same number.
pub proof fn lemme_car_ascii(c: char, b: u8)
    requires
        c <= '\u{7f}',
        c as u8 == b,
    ensures
        c as int == b as int,
{
}

/// The number that the ASCII bytes `octets[debut..]` write in decimal, if they
/// are digits, one at least, and the number is at most `max`.
fn analyse_chiffres(octets: &[u8], debut: usize, max: u64, Ghost(t): Ghost<Seq<char>>) -> (r:
    Option<u64>)
    requires
        debut <= octets@.len(),
        t.len() == octets@.len() - debut,
        forall|i: int|
            0 <= i < t.len() ==> (#[trigger] t[i]) <= '\u{7f}' && t[i] as u8 == octets@[debut + i],
        max <= 0x8000_0000_0000_0000,
    ensures
        r is Some <==> t.len() > 0 && tous_chiffres(t) && valeur(t) <= max,
        r matches Some(v) ==> v == valeur(t),
{
    if debut >= octets.len() {
        return None;
    }
    let mut v: u64 = 0;
    let mut i: usize = debut;
    while i < octets.len()
        invariant
            debut <= i <= octets@.len(),
            t.len() == octets@.len() - debut,
            forall|k: int|
                0 <= k < t.len() ==> (#[trigger] t[k]) <= '\u{7f}' && t[k] as u8 == octets@[debut
                    + k],
            tous_chiffres(t.take(i - debut)),
            v == valeur(t.take(i - debut)),
            v <= max <= 0x8000_0000_0000_0000,
        decreases octets@.len() - i,
    {
        let b = octets[i];
        let ghost j = i - debut;
        proof {
            assert(t.take(j + 1).drop_last() =~= t.take(j));
            assert(t.take(j + 1).last() == t[j]);
        }
        if b < 0x30 || b > 0x39 {
            assert(!est_chiffre_car(t[j]));
            return None;
        }
        let d: u64 = (b - 0x30) as u64;
        if d > max || v > (max - d) / 10 {
            proof {
                assert(10 * v + d > max);
                lemme_valeur_croit(t, j + 1);
            }
            // Too large already; what follows cannot make it smaller.
            return None;
        }
        v = 10 * v + d;
        proof {
            assert forall|k: int| 0 <= k < j + 1 implies est_chiffre_car(
                #[trigger] t.take(j + 1)[k],
            ) by {
                if k < j {
                    assert(est_chiffre_car(t.take(j)[k]));
                } else {
                    lemme_car_ascii(t[j], b);
                }
            }
        }
        i += 1;
    }
    proof {
        assert(t.take(i - debut) =~= t);
    }
    Some(v)
}

/// Reads a whole number in decimal, as `str::parse` does for the integer
/// types: digits, with a sign before them if need be. Gives the number if it
/// lies between `min` and `max`.
pub fn analyse_entier(s: &str, min: i64, max: i64) -> (r: Option<i64>)
    requires
        min <= 0 <= max,
    ensures
        match r {
            Some(v) => entier_borne(s@, min as int, max as int) == Some(v as int),
            None => entier_borne(s@, min as int, max as int) is None,
        },
{
    broadcast use vstd::string::is_ascii_spec_bytes;

    if !s.is_ascii() {
        proof {
            // A text with a character beyond ASCII writes no number.
            let t = s@;
            let k = choose|k: int| 0 <= k < t.len() && !('\0' <= #[trigger] t[k] <= '\u{7f}');
            if t.len() > 0 && (t[0] == '-' || t[0] == '+') {
                if k > 0 {
                    assert(!est_chiffre_car(t.drop_first()[k - 1]));
                }
            } else if t.len() > 0 {
                assert(!est_chiffre_car(t[k]));
            }
        }
        return None;
    }
    let octets = s.as_bytes();
    assert(octets@ =~= Seq::new(s@.len(), |i: int| s@[i] as u8));
    if octets.len() == 0 {
        return None;
    }
    let premier = octets[0];
    if premier == 0x2d {
        assert(s@[0] == '-');
        let borne: u64 = if min == i64::MIN {
            0x8000_0000_0000_0000
        } else {
            (-min) as u64
        };
        match analyse_chiffres(octets, 1, borne, Ghost(s@.drop_first())) {
            Some(v) => {
                if v == 0x8000_0000_0000_0000 {
                    Some(i64::MIN)
                } else {
                    Some(-(v as i64))
                }
            },
            None => None,
        }
    } else if premier == 0x2b {
        assert(s@[0] == '+');
        match analyse_chiffres(octets, 1, max as u64, Ghost(s@.drop_first())) {
            Some(v) => Some(v as i64),
            None => None,
        }
    } else {
        assert(s@[0] != '+' && s@[0] != '-');
        match analyse_chiffres(octets, 0, max as u64, Ghost(s@)) {
            Some(v) => Some(v as i64),
            None => None,
        }
    }
}

/// Whether `t` holds nothing but ASCII characters.
pub open spec fn est_ascii(t: Seq<char>) -> bool {
    vstd::utf8::is_ascii_chars(t)
}

/// The bytes of the ASCII text `t`.
pub open spec fn octets_de(t: Seq<char>) -> Seq<u8> {
    Seq::new(t.len(), |i: int| t[i] as u8)
}

/// The bytes of `s`, if it holds nothing but ASCII characters.
pub fn octets_ascii(s: &str) -> (r: Option<&[u8]>)
    ensures
        r is Some <==> est_ascii(s@),
        r matches Some(o) ==> o@ == octets_de(s@) && forall|i: int|
            0 <= i < o@.len() ==> #[trigger] o@[i] < 128,
{
    broadcast use vstd::string::is_ascii_spec_bytes;

    if s.is_ascii() {
        let o = s.as_bytes();
        assert(o@ =~= octets_de(s@));
        assert forall|i: int| 0 <= i < o@.len() implies #[trigger] o@[i] < 128 by {
            assert(s@[i] <= '\u{7f}');
        }
        Some(o)
    } else {
        None
    }
}

/// Adds the bytes of `octets` at the end of `v`.
pub fn ajoute_octets(v: &mut Vec<u8>, octets: &[u8])
    ensures
        final(v)@ == old(v)@ + octets@,
{
    let mut i: usize = 0;
    while i < octets.len()
        invariant
            i <= octets@.len(),
            v@ == old(v)@ + octets@.take(i as int),
        decreases octets@.len() - i,
    {
        v.push(octets[i]);
        assert(octets@.take(i + 1) =~= octets@.take(i as int).push(octets@[i as int]));
        i += 1;
    }
    assert(octets@.take(i as int) =~= octets@);
}

/// `t` filled up with zeros on the right until it has `n` characters; a text
/// that has as many already is left alone.
pub open spec fn rembourre(t: Seq<char>, n: nat) -> Seq<char>
    decreases n - t.len(),
{
    if t.len() < n {
        rembourre(t.push('0'), n)
    } else {
        t
    }
}

/// Fills `s` up with zeros on the right until it has `n` characters.
pub fn rembourre_droite(s: &mut String, n: usize)
    ensures
        final(s)@ == rembourre(old(s)@, n as nat),
{
    let mut k: usize = s.as_str().unicode_len();
    while k < n
        invariant
            k == s@.len(),
            rembourre(s@, n as nat) == rembourre(old(s)@, n as nat),
        decreases n - k,
    {
        pousse_car(s, '0');
        k += 1;
    }
}

/// What each text of a list holds.
pub open spec fn vues(liste: Seq<String>) -> Seq<Seq<char>> {
    liste.map_values(|s: String| s@)
}

/// Whether `c` parts the items of a list: a comma or a semicolon.
pub open spec fn est_separateur(c: char) -> bool {
    c == ',' || c == ';'
}

/// The pieces that `t` falls into when it is cut at every comma and
/// semicolon; there is always one piece at least.
pub open spec fn morceaux(t: Seq<char>) -> Seq<Seq<char>>
    decreases t.len(),
{
    if t.len() == 0 {
        seq![Seq::<char>::empty()]
    } else {
        let avant = morceaux(t.drop_last());
        if est_separateur(t.last()) {
            avant.push(Seq::<char>::empty())
        } else {
            avant.drop_last().push(avant.last().push(t.last()))
        }
    }
}

/// `c`, or a space in place of a line break.
pub open spec fn sans_saut(c: char) -> char {
    if c == '\n' {
        ' '
    } else {
        c
    }
}

/// The item that the piece `t` of a list stands for: the piece without the
/// white space around it, with spaces in place of the line breaks in it.
pub open spec fn item_net(t: Seq<char>) -> Seq<char> {
    rogne(t).map_values(|c: char| sans_saut(c))
}

/// The items of the list that `t` writes: its pieces, each made neat.
pub open spec fn items_nets(t: Seq<char>) -> Seq<Seq<char>> {
    morceaux(t).map_values(|p: Seq<char>| item_net(p))
}

/// Cuts `s` at every comma and semicolon.
pub fn decoupe(s: &str) -> (r: Vec<String>)
    ensures
        vues(r@) == morceaux(s@),
{
    let mut pieces: Vec<String> = Vec::new();
    let mut courant = String::new();
    assert(vues(pieces@).push(courant@) =~= morceaux(s@.take(0)));
    for c in it: s.chars()
        invariant
            it.seq() == s@,
            vues(pieces@).push(courant@) == morceaux(s@.take(it.index() as int)),
    {
        let ghost avant = vues(pieces@).push(courant@);
        proof {
            assert(s@.take(it.index() + 1).drop_last() =~= s@.take(it.index() as int));
            assert(avant.drop_last() =~= vues(pieces@));
        }
        if c == ',' || c == ';' {
            pieces.push(courant);
            courant = String::new();
            assert(vues(pieces@).push(courant@) =~= avant.push(Seq::<char>::empty()));
        } else {
            pousse_car(&mut courant, c);
            assert(vues(pieces@).push(courant@) =~= avant.drop_last().push(avant.last().push(c)));
        }
    }
    assert(s@.take(s@.len() as int) =~= s@);
    pieces.push(courant);
    assert(vues(pieces@) =~= morceaux(s@));
    pieces
}

/// The item that a piece of a list stands for, see [`item_net`].
pub fn nettoie(piece: &str) -> (r: String)
    ensures
        r@ == item_net(piece@),
{
    let t = trim(piece);
    let mut r = String::new();
    for c in it: t.chars()
        invariant
            it.seq() == t@,
            r@ == t@.take(it.index() as int).map_values(|c: char| sans_saut(c)),
    {
        pousse_car(
            &mut r,
            if c == '\n' {
                ' '
            } else {
                c
            },
        );
        assert(r@ =~= t@.take(it.index() + 1).map_values(|c: char| sans_saut(c)));
    }
    assert(t@.take(t@.len() as int) =~= t@);
    r
}

/// Adds the items of the list that `s` writes at the end of `liste`.
pub fn ajoute_items(liste: &mut Vec<String>, s: &str)
    ensures
        vues(final(liste)@) == vues(old(liste)@) + items_nets(s@),
{
    let pieces = decoupe(s);
    let mut i: usize = 0;
    assert(vues(liste@) =~= vues(old(liste)@) + items_nets(s@).take(0));
    while i < pieces.len()
        invariant
            i <= pieces@.len(),
            vues(pieces@) == morceaux(s@),
            vues(liste@) == vues(old(liste)@) + items_nets(s@).take(i as int),
        decreases pieces@.len() - i,
    {
        let net = nettoie(pieces[i].as_str());
        proof {
            assert(vues(pieces@)[i as int] == pieces@[i as int]@);
            assert(items_nets(s@)[i as int] == net@);
        }
        let ghost avant = liste@;
        let ghost vnet = net@;
        liste.push(net);
        assert(vues(liste@) =~= vues(avant).push(vnet));
        assert(items_nets(s@).take(i + 1) =~= items_nets(s@).take(i as int).push(vnet));
        assert(vues(liste@) =~= vues(old(liste)@) + items_nets(s@).take(i + 1));
        i += 1;
    }
    assert(items_nets(s@).take(i as int) =~= items_nets(s@));
}

/// How the bytes `a` stand to the bytes `b` in the order of the dictionary:
/// -1 if `a` comes first, 1 if `b` does, 0 if they are the same. The first
/// byte that differs decides; if none does, the shorter comes first.
pub open spec fn ordre_octets(a: Seq<u8>, b: Seq<u8>) -> int
    decreases a.len(),
{
    if a.len() == 0 && b.len() == 0 {
        0
    } else if a.len() == 0 {
        -1
    } else if b.len() == 0 {
        1
    } else if a[0] < b[0] {
        -1
    } else if a[0] > b[0] {
        1
    } else {
        ordre_octets(a.drop_first(), b.drop_first())
    }
}

/// How the text `a` stands to the text `b` in the order of their bytes, which
/// is the order of `str`.
pub fn ordre_textes(a: &str, b: &str) -> (r: i8)
    ensures
        r == ordre_octets(vstd::utf8::encode_utf8(a@), vstd::utf8::encode_utf8(b@)),
        -1 <= r <= 1,
{
    let x = a.as_bytes();
    let y = b.as_bytes();
    let mut i: usize = 0;
    assert(x@.skip(0) =~= x@ && y@.skip(0) =~= y@);
    while i < x.len() && i < y.len()
        invariant
            i <= x@.len(),
            i <= y@.len(),
            x@ == vstd::utf8::encode_utf8(a@),
            y@ == vstd::utf8::encode_utf8(b@),
            ordre_octets(x@.skip(i as int), y@.skip(i as int)) == ordre_octets(x@, y@),
        decreases x@.len() - i,
    {
        proof {
            assert(x@.skip(i as int).drop_first() =~= x@.skip(i + 1));
            assert(y@.skip(i as int).drop_first() =~= y@.skip(i + 1));
            assert(x@.skip(i as int)[0] == x@[i as int]);
            assert(y@.skip(i as int)[0] == y@[i as int]);
        }
        if x[i] < y[i] {
            return -1;
        }
        if x[i] > y[i] {
            return 1;
        }
        i += 1;
    }
    if i < y.len() {
        -1
    } else if i < x.len() {
        1
    } else {
        0
    }
}

/// `n` zeros.
pub open spec fn zeros(n: int) -> Seq<char> {
    Seq::new(
        if n > 0 {
            n as nat
        } else {
            0
        },
        |i: int| '0',
    )
}

/// A whole number as `{:0w}` prints it: the sign if it is negative, then
/// zeros until the width `w` is reached, then the digits.
pub open spec fn decimal_large(n: int, w: nat) -> Seq<char> {
    if n < 0 {
        seq!['-'] + zeros(w - 1 - decimal((-n) as nat).len()) + decimal((-n) as nat)
    } else {
        zeros(w - decimal(n as nat).len()) + decimal(n as nat)
    }
}

/// Appends `n` to `s`, filled up with zeros on the left to `w` characters.
pub fn ecrit_decimal_large(s: &mut String, n: i64, w: usize)
    requires
        w <= 64,
    ensures
        final(s)@ == old(s)@ + decimal_large(n as int, w as nat),
{
    let mut chiffres = String::new();
    let m: u64 = if n < 0 {
        if n == i64::MIN {
            0x8000_0000_0000_0000u64
        } else {
            (-n) as u64
        }
    } else {
        n as u64
    };
    ecrit_decimal(&mut chiffres, m);
    let longueur = chiffres.as_str().unicode_len();
    if n < 0 {
        pousse_car(s, '-');
    }
    let manque: usize = if longueur >= w {
        0
    } else if n < 0 {
        w - longueur - 1
    } else {
        w - longueur
    };
    let ghost debut = s@;
    let mut k: usize = 0;
    assert(zeros(0) =~= Seq::<char>::empty());
    while k < manque
        invariant
            k <= manque,
            s@ == debut + zeros(k as int),
        decreases manque - k,
    {
        pousse_car(s, '0');
        assert(zeros(k + 1) =~= zeros(k as int).push('0'));
        k += 1;
    }
    proof {
        let cible: int = if n < 0 {
            w - 1 - longueur
        } else {
            w - longueur
        };
        assert(zeros(manque as int) =~= zeros(cible));
    }
    s.append(chiffres.as_str());
    assert(s@ =~= old(s)@ + decimal_large(n as int, w as nat));
}

/// `t` with a dash in place of each space.
pub open spec fn tirets(t: Seq<char>) -> Seq<char> {
    t.map_values(
        |c: char|
            if c == ' ' {
                '-'
            } else {
                c
            },
    )
}

/// `s` with a dash in place of each space.
pub fn sans_espaces(s: &str) -> (r: String)
    ensures
        r@ == tirets(s@),
{
    let mut r = String::new();
    for c in it: s.chars()
        invariant
            it.seq() == s@,
            r@ == tirets(s@.take(it.index() as int)),
    {
        pousse_car(
            &mut r,
            if c == ' ' {
                '-'
            } else {
                c
            },
        );
        assert(r@ =~= tirets(s@.take(it.index() + 1)));
    }
    assert(s@.take(s@.len() as int) =~= s@);
    r
}

} // verus!
