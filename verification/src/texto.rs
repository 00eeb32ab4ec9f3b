//! Text primitives shared by the parsers of the library: Unicode
//! whitespace, trimming, splitting, substring search and decimal numbers.
//! Every function here is stated over `Seq<char>`, the view of `str` and
//! `String`.

use vstd::prelude::*;
use vstd::string::StringSliceAdditionalSpecFns;

verus! {

// ---------------------------------------------------------------------
// Whitespace and trimming
// ---------------------------------------------------------------------

/// The Unicode `White_Space` property, which is what `char::is_whitespace`
/// tests.
pub open spec fn es_espacio(c: char) -> bool {
    ||| ('\u{9}' <= c && c <= '\u{d}')
    ||| c == ' '
    ||| c == '\u{85}'
    ||| c == '\u{a0}'
    ||| c == '\u{1680}'
    ||| ('\u{2000}' <= c && c <= '\u{200a}')
    ||| c == '\u{2028}'
    ||| c == '\u{2029}'
    ||| c == '\u{202f}'
    ||| c == '\u{205f}'
    ||| c == '\u{3000}'
}

pub fn es_espacio_exec(c: char) -> (r: bool)
    ensures
        r == es_espacio(c),
{
    ('\u{9}' <= c && c <= '\u{d}') || c == ' ' || c == '\u{85}' || c == '\u{a0}' || c
        == '\u{1680}' || ('\u{2000}' <= c && c <= '\u{200a}') || c == '\u{2028}' || c
        == '\u{2029}' || c == '\u{202f}' || c == '\u{205f}' || c == '\u{3000}'
}

/// `s` without its leading whitespace.
pub open spec fn sin_espacios_inicio(s: Seq<char>) -> Seq<char>
    decreases s.len(),
{
    if s.len() > 0 && es_espacio(s[0]) {
        sin_espacios_inicio(s.drop_first())
    } else {
        s
    }
}

/// `s` without its trailing whitespace.
pub open spec fn sin_espacios_final(s: Seq<char>) -> Seq<char>
    decreases s.len(),
{
    if s.len() > 0 && es_espacio(s.last()) {
        sin_espacios_final(s.drop_last())
    } else {
        s
    }
}

/// What `str::trim` gives back: `s` without leading and trailing whitespace.
pub open spec fn recortar(s: Seq<char>) -> Seq<char> {
    sin_espacios_final(sin_espacios_inicio(s))
}

/// The characters of `s`, one by one.
pub fn caracteres(s: &str) -> (r: Vec<char>)
    ensures
        r@ == s@,
{
    let n = s.unicode_len();
    let mut r: Vec<char> = Vec::new();
    let mut i: usize = 0;
    while i < n
        invariant
            n == s@.len(),
            i <= n,
            r@ == s@.take(i as int),
        decreases n - i,
    {
        r.push(s.get_char(i));
        i = i + 1;
        assert(r@ =~= s@.take(i as int));
    }
    assert(r@ =~= s@);
    r
}

/// Index of the first character of `s` that is not whitespace (or its
/// length when there is none).
fn inicio_sin_espacios(s: &Vec<char>) -> (i: usize)
    ensures
        i <= s@.len(),
        sin_espacios_inicio(s@) == s@.skip(i as int),
        forall|k: int| 0 <= k < i ==> es_espacio(#[trigger] s@[k]),
        i < s@.len() ==> !es_espacio(s@[i as int]),
{
    let mut i: usize = 0;
    assert(s@.skip(0) =~= s@);
    while i < s.len() && es_espacio_exec(s[i])
        invariant
            i <= s@.len(),
            sin_espacios_inicio(s@) == sin_espacios_inicio(s@.skip(i as int)),
            forall|k: int| 0 <= k < i ==> es_espacio(#[trigger] s@[k]),
        decreases s@.len() - i,
    {
        assert(s@.skip(i as int).drop_first() =~= s@.skip(i + 1));
        i = i + 1;
    }
    i
}

/// Index just after the last character of `s[..hasta]` that is not
/// whitespace (or 0 when there is none).
fn fin_sin_espacios(s: &Vec<char>, hasta: usize) -> (j: usize)
    requires
        hasta <= s@.len(),
    ensures
        j <= hasta,
        sin_espacios_final(s@.take(hasta as int)) == s@.take(j as int),
        forall|k: int| j <= k < hasta ==> es_espacio(#[trigger] s@[k]),
        j > 0 ==> !es_espacio(s@[j - 1]),
{
    let mut j: usize = hasta;
    while j > 0 && es_espacio_exec(s[j - 1])
        invariant
            j <= hasta <= s@.len(),
            sin_espacios_final(s@.take(hasta as int)) == sin_espacios_final(s@.take(j as int)),
            forall|k: int| j <= k < hasta ==> es_espacio(#[trigger] s@[k]),
        decreases j,
    {
        assert(s@.take(j as int).drop_last() =~= s@.take(j - 1));
        j = j - 1;
    }
    j
}

/// Bounds `(i, j)` such that `recortar(s) == s[i..j]`.
pub fn limites_recorte(s: &Vec<char>) -> (r: (usize, usize))
    ensures
        r.0 <= r.1 <= s@.len(),
        recortar(s@) == s@.subrange(r.0 as int, r.1 as int),
{
    let i = inicio_sin_espacios(s);
    let j = fin_sin_espacios(s, s.len());
    assert(s@.take(s@.len() as int) =~= s@);
    if j < i {
        // Everything is whitespace.
        proof {
            lema_todo_espacios_final(s@.skip(i as int));
        }
        assert(s@.subrange(i as int, i as int) =~= Seq::<char>::empty());
        assert(s@.skip(i as int) =~= Seq::<char>::empty());
        (i, i)
    } else {
        proof {
            lema_final_de_sufijo(s@, i as int, j as int);
        }
        (i, j)
    }
}

proof fn lema_todo_espacios_final(s: Seq<char>)
    requires
        s.len() == 0,
    ensures
        sin_espacios_final(s) == s,
{
}

/// Removing trailing whitespace from `s[i..]` gives `s[i..j]` when
/// `s[..j]` is what removing it from `s` gives and `i <= j`.
proof fn lema_final_de_sufijo(s: Seq<char>, i: int, j: int)
    requires
        0 <= i <= j <= s.len(),
        sin_espacios_final(s) == s.take(j),
        forall|k: int| j <= k < s.len() ==> es_espacio(#[trigger] s[k]),
        j > 0 ==> !es_espacio(s[j - 1]),
        i < s.len() ==> !es_espacio(s[i]),
    ensures
        sin_espacios_final(s.skip(i)) == s.subrange(i, j),
    decreases s.len() - j,
{
    if j == s.len() {
        assert(s.skip(i) =~= s.subrange(i, j));
        if s.skip(i).len() > 0 {
            assert(s.skip(i).last() == s[j - 1]);
        }
    } else {
        // s[s.len() - 1] is whitespace: drop it on both sides.
        let t = s.drop_last();
        assert(s.skip(i).last() == s.last());
        assert(s.skip(i).drop_last() =~= t.skip(i));
        assert(t.take(j) =~= s.take(j));
        lema_final_de_prefijo_espacios(s, j);
        lema_final_de_sufijo(t, i, j);
        assert(t.subrange(i, j) =~= s.subrange(i, j));
    }
}

proof fn lema_final_de_prefijo_espacios(s: Seq<char>, j: int)
    requires
        0 <= j < s.len(),
        sin_espacios_final(s) == s.take(j),
        forall|k: int| j <= k < s.len() ==> es_espacio(#[trigger] s[k]),
    ensures
        sin_espacios_final(s.drop_last()) == s.drop_last().take(j),
{
    assert(es_espacio(s[s.len() - 1]));
    assert(s.drop_last().take(j) =~= s.take(j));
}

/// What `str::trim` does.
pub fn recortar_texto(s: &str) -> (r: String)
    ensures
        r@ == recortar(s@),
{
    let v = caracteres(s);
    let (i, j) = limites_recorte(&v);
    String::from_str(s.substring_char(i, j))
}

// ---------------------------------------------------------------------
// Equality, prefixes, suffixes and substrings
// ---------------------------------------------------------------------

/// `n` occurs in `h` at position `i`.
pub open spec fn aparece_en(h: Seq<char>, n: Seq<char>, i: int) -> bool {
    0 <= i && i + n.len() <= h.len() && h.subrange(i, i + n.len()) == n
}

/// What `str::contains` with a string pattern answers.
pub open spec fn contiene(h: Seq<char>, n: Seq<char>) -> bool {
    exists|i: int| aparece_en(h, n, i)
}

/// What `str::starts_with` answers.
pub open spec fn empieza_con(s: Seq<char>, p: Seq<char>) -> bool {
    aparece_en(s, p, 0)
}

/// What `str::ends_with` answers.
pub open spec fn termina_con(s: Seq<char>, p: Seq<char>) -> bool {
    aparece_en(s, p, s.len() - p.len())
}

/// `n` occurs in `h` at `i`, checked character by character.
fn aparece_en_exec(h: &Vec<char>, n: &Vec<char>, i: usize) -> (r: bool)
    requires
        i + n@.len() <= h@.len(),
    ensures
        r == aparece_en(h@, n@, i as int),
{
    let hl = h.len();
    let mut j: usize = 0;
    while j < n.len()
        invariant
            hl == h@.len(),
            i + n@.len() <= h@.len(),
            j <= n@.len(),
            forall|t: int| 0 <= t < j ==> h@[i + t] == n@[t],
        decreases n@.len() - j,
    {
        if h[i + j] != n[j] {
            assert(h@.subrange(i as int, i + n@.len())[j as int] != n@[j as int]);
            return false;
        }
        j = j + 1;
    }
    assert(h@.subrange(i as int, i + n@.len()) =~= n@);
    true
}

/// Whether `n` occurs in `h` (as `str::contains`).
pub fn contiene_exec(h: &Vec<char>, n: &str) -> (r: bool)
    ensures
        r == contiene(h@, n@),
{
    let nv = caracteres(n);
    if nv.len() > h.len() {
        assert forall|i: int| !aparece_en(h@, n@, i) by {}
        return false;
    }
    if nv.len() == 0 {
        assert(h@.subrange(0, 0) =~= n@);
        assert(aparece_en(h@, n@, 0));
        return true;
    }
    let hl = h.len();
    let tope = hl - nv.len();
    let mut i: usize = 0;
    while i <= tope
        invariant
            hl == h@.len(),
            tope + nv@.len() == h@.len(),
            nv@.len() > 0,
            nv@ == n@,
            forall|k: int| 0 <= k < i ==> !aparece_en(h@, n@, k),
        decreases tope + 1 - i,
    {
        if aparece_en_exec(h, &nv, i) {
            return true;
        }
        i = i + 1;
    }
    assert forall|k: int| !aparece_en(h@, n@, k) by {
        if 0 <= k && k < i {
        }
    }
    false
}

/// Whether `s` starts with `p` (as `str::starts_with`).
pub fn empieza_con_exec(s: &Vec<char>, p: &str) -> (r: bool)
    ensures
        r == empieza_con(s@, p@),
{
    let pv = caracteres(p);
    if pv.len() > s.len() {
        return false;
    }
    aparece_en_exec(s, &pv, 0)
}

/// Whether `s` ends with `p` (as `str::ends_with`).
pub fn termina_con_exec(s: &Vec<char>, p: &str) -> (r: bool)
    ensures
        r == termina_con(s@, p@),
{
    let pv = caracteres(p);
    if pv.len() > s.len() {
        return false;
    }
    aparece_en_exec(s, &pv, s.len() - pv.len())
}

/// Whether two texts are equal (as `==` on `str`).
pub fn iguales(a: &str, b: &str) -> (r: bool)
    ensures
        r == (a@ == b@),
{
    let av = caracteres(a);
    let bv = caracteres(b);
    if av.len() != bv.len() {
        return false;
    }
    let r = aparece_en_exec(&av, &bv, 0);
    assert(av@.subrange(0, bv@.len() as int) =~= av@);
    r
}

/// Whether a byte string equals the UTF-8 encoding of `lit`.
pub fn bytes_iguales(b: &[u8], lit: &str) -> (r: bool)
    ensures
        r == (b@ == lit.spec_bytes()),
{
    let l = lit.as_bytes();
    if b.len() != l.len() {
        return false;
    }
    let mut i: usize = 0;
    while i < b.len()
        invariant
            b@.len() == l@.len(),
            l@ == lit.spec_bytes(),
            i <= b@.len(),
            forall|k: int| 0 <= k < i ==> b@[k] == l@[k],
        decreases b@.len() - i,
    {
        if b[i] != l[i] {
            return false;
        }
        i = i + 1;
    }
    assert(b@ =~= l@);
    true
}


// ---------------------------------------------------------------------
// Searching and splitting
// ---------------------------------------------------------------------

/// `i` is the leftmost position where `n` occurs in `h`.
pub open spec fn es_primera(h: Seq<char>, n: Seq<char>, i: int) -> bool {
    aparece_en(h, n, i) && forall|k: int| 0 <= k < i ==> !aparece_en(h, n, k)
}

/// The leftmost position where `n` occurs in `h`, if any.
pub open spec fn primera_aparicion(h: Seq<char>, n: Seq<char>) -> Option<int> {
    if contiene(h, n) {
        Some(choose|i: int| es_primera(h, n, i))
    } else {
        None
    }
}

/// Two leftmost positions are the same position.
pub proof fn lema_primera_unica(h: Seq<char>, n: Seq<char>, i: int)
    requires
        es_primera(h, n, i),
    ensures
        primera_aparicion(h, n) == Some(i),
{
    assert(contiene(h, n));
    let j = choose|j: int| es_primera(h, n, j);
    assert(es_primera(h, n, j));
    if j < i {
        assert(!aparece_en(h, n, j));
    } else if i < j {
        assert(!aparece_en(h, n, i));
    }
}

/// The leftmost position at or after `desde` where `n` occurs in `h`.
fn buscar_desde(h: &Vec<char>, n: &Vec<char>, desde: usize) -> (r: Option<usize>)
    requires
        desde <= h@.len(),
        n@.len() > 0,
    ensures
        match r {
            Some(i) => desde <= i && aparece_en(h@, n@, i as int) && forall|k: int|
                desde <= k < i ==> !aparece_en(h@, n@, k),
            None => forall|k: int| desde <= k ==> !aparece_en(h@, n@, k),
        },
{
    let hl = h.len();
    if n.len() > hl {
        return None;
    }
    let tope = hl - n.len();
    let mut i: usize = desde;
    while i <= tope
        invariant
            hl == h@.len(),
            tope + n@.len() == hl,
            n@.len() > 0,
            desde <= i,
            forall|k: int| desde <= k < i ==> !aparece_en(h@, n@, k),
        decreases tope + 1 - i,
    {
        if aparece_en_exec(h, n, i) {
            return Some(i);
        }
        i = i + 1;
    }
    None
}

/// The piece between the first and the second occurrence of `p` in `s`
/// (or up to the end): what `s.split(p).nth(1)` gives.
pub open spec fn segundo_trozo(s: Seq<char>, p: Seq<char>) -> Option<Seq<char>> {
    match primera_aparicion(s, p) {
        None => None,
        Some(i) => {
            let resto = s.skip(i + p.len());
            match primera_aparicion(resto, p) {
                Some(j) => Some(resto.take(j)),
                None => Some(resto),
            }
        },
    }
}

/// `aparece_en` on a suffix, moved back to the whole text.
proof fn lema_aparece_en_sufijo(s: Seq<char>, p: Seq<char>, d: int, k: int)
    requires
        0 <= d <= s.len(),
        0 <= k,
    ensures
        aparece_en(s.skip(d), p, k) == aparece_en(s, p, k + d),
{
    if k + p.len() <= s.len() - d {
        assert(s.skip(d).subrange(k, k + p.len()) =~= s.subrange(k + d, k + d + p.len()));
    }
}

/// What `s.split(p).nth(1)` gives, for a nonempty pattern `p`.
pub fn segundo_trozo_exec(s: &str, p: &str) -> (r: Option<String>)
    requires
        p@.len() > 0,
    ensures
        match r {
            Some(t) => segundo_trozo(s@, p@) == Some(t@),
            None => segundo_trozo(s@, p@) is None,
        },
{
    let sv = caracteres(s);
    let pv = caracteres(p);
    let sl = sv.len();
    match buscar_desde(&sv, &pv, 0) {
        None => {
            assert(!contiene(s@, p@));
            None
        },
        Some(i) => {
            proof {
                lema_primera_unica(s@, p@, i as int);
            }
            let inicio = i + pv.len();
            let ghost resto = s@.skip(inicio as int);
            match buscar_desde(&sv, &pv, inicio) {
                None => {
                    assert forall|k: int| !aparece_en(resto, p@, k) by {
                        if 0 <= k {
                            lema_aparece_en_sufijo(s@, p@, inicio as int, k);
                        }
                    }
                    assert(s@.subrange(inicio as int, sv@.len() as int) =~= resto);
                    Some(String::from_str(s.substring_char(inicio, sv.len())))
                },
                Some(j) => {
                    let jj = j - inicio;
                    proof {
                        lema_aparece_en_sufijo(s@, p@, inicio as int, jj as int);
                        assert forall|k: int| 0 <= k < jj implies !aparece_en(resto, p@, k) by {
                            lema_aparece_en_sufijo(s@, p@, inicio as int, k);
                        }
                        lema_primera_unica(resto, p@, jj as int);
                    }
                    assert(s@.subrange(inicio as int, j as int) =~= resto.take(jj as int));
                    Some(String::from_str(s.substring_char(inicio, j)))
                },
            }
        },
    }
}

/// What `s.splitn(2, p)` gives: the text before the first occurrence of
/// `p` and, when there is one, the text after it.
pub open spec fn partir_en_dos(s: Seq<char>, p: Seq<char>) -> (Seq<char>, Option<Seq<char>>) {
    match primera_aparicion(s, p) {
        None => (s, None),
        Some(i) => (s.take(i), Some(s.skip(i + p.len()))),
    }
}

/// What `s.splitn(2, p)` gives, for a nonempty pattern `p`.
pub fn partir_en_dos_exec(s: &str, p: &str) -> (r: (String, Option<String>))
    requires
        p@.len() > 0,
    ensures
        partir_en_dos(s@, p@).0 == r.0@,
        match r.1 {
            Some(t) => partir_en_dos(s@, p@).1 == Some(t@),
            None => partir_en_dos(s@, p@).1 is None,
        },
{
    let sv = caracteres(s);
    let pv = caracteres(p);
    let sl = sv.len();
    match buscar_desde(&sv, &pv, 0) {
        None => {
            assert(!contiene(s@, p@));
            (String::from_str(s), None)
        },
        Some(i) => {
            proof {
                lema_primera_unica(s@, p@, i as int);
            }
            let inicio = i + pv.len();
            assert(s@.subrange(0, i as int) =~= s@.take(i as int));
            assert(s@.subrange(inicio as int, sv@.len() as int) =~= s@.skip(inicio as int));
            (
                String::from_str(s.substring_char(0, i)),
                Some(String::from_str(s.substring_char(inicio, sv.len()))),
            )
        },
    }
}

/// The pieces of `s` between the occurrences of `sep`: what
/// `s.split(sep)` yields for a `char` separator.
pub open spec fn partes(s: Seq<char>, sep: char) -> Seq<Seq<char>>
    decreases s.len(),
{
    if s.len() == 0 {
        seq![Seq::<char>::empty()]
    } else {
        let p = partes(s.drop_last(), sep);
        if s.last() == sep {
            p.push(Seq::<char>::empty())
        } else {
            p.update(p.len() - 1, p.last().push(s.last()))
        }
    }
}

pub proof fn lema_partes_no_vacia(s: Seq<char>, sep: char)
    ensures
        partes(s, sep).len() >= 1,
    decreases s.len(),
{
    if s.len() > 0 {
        lema_partes_no_vacia(s.drop_last(), sep);
    }
}

/// The views of a vector of strings.
pub open spec fn vistas(v: Seq<String>) -> Seq<Seq<char>> {
    v.map_values(|x: String| x@)
}

/// What `s.split(sep)` yields, collected.
pub fn partes_exec(s: &str, sep: char) -> (r: Vec<String>)
    ensures
        vistas(r@) == partes(s@, sep),
{
    let sv = caracteres(s);
    let n = sv.len();
    let mut r: Vec<String> = Vec::new();
    let mut inicio: usize = 0;
    let mut i: usize = 0;
    assert(s@.take(0) =~= Seq::<char>::empty());
    assert(vistas(r@).push(s@.subrange(0, 0)) =~= partes(s@.take(0), sep));
    while i < n
        invariant
            n == sv@.len(),
            sv@ == s@,
            inicio <= i <= n,
            vistas(r@).push(s@.subrange(inicio as int, i as int)) == partes(s@.take(i as int), sep),
        decreases n - i,
    {
        let ghost antes = s@.take(i as int);
        assert(s@.take(i + 1).drop_last() =~= antes);
        assert(s@.take(i + 1).last() == s@[i as int]);
        proof {
            lema_partes_no_vacia(antes, sep);
        }
        if sv[i] == sep {
            let ghost v0 = vistas(r@);
            let ghost ini0 = inicio;
            r.push(String::from_str(s.substring_char(inicio, i)));
            assert(vistas(r@) =~= v0.push(s@.subrange(ini0 as int, i as int)));
            assert(partes(s@.take(i + 1), sep) == partes(antes, sep).push(Seq::<char>::empty()));
            inicio = i + 1;
            assert(s@.subrange(inicio as int, (i + 1) as int) =~= Seq::<char>::empty());
            assert(vistas(r@).push(s@.subrange(inicio as int, (i + 1) as int)) =~= partes(s@.take(i + 1), sep));
        } else {
            assert(s@.subrange(inicio as int, i as int).push(s@[i as int]) =~= s@.subrange(inicio as int, i + 1));
            assert(vistas(r@).push(s@.subrange(inicio as int, (i + 1) as int)) =~= partes(s@.take(i + 1), sep));
        }
        i = i + 1;
    }
    r.push(String::from_str(s.substring_char(inicio, n)));
    assert(s@.take(n as int) =~= s@);
    assert(vistas(r@) =~= partes(s@, sep));
    r
}


/// The nonempty texts of `xs`, in order.
pub open spec fn no_vacios(xs: Seq<Seq<char>>) -> Seq<Seq<char>>
    decreases xs.len(),
{
    if xs.len() == 0 {
        Seq::<Seq<char>>::empty()
    } else {
        let r = no_vacios(xs.drop_last());
        if xs.last().len() == 0 {
            r
        } else {
            r.push(xs.last())
        }
    }
}

/// A comma-separated list: each piece trimmed, empty pieces left out. What
/// `s.split(',').map(|x| x.trim()).filter(|x| !x.is_empty())` yields.
pub open spec fn lista_separada(s: Seq<char>) -> Seq<Seq<char>> {
    no_vacios(partes(s, ',').map_values(|x: Seq<char>| recortar(x)))
}

/// The items of a comma-separated list (see `lista_separada`).
pub fn lista_separada_exec(s: &str) -> (r: Vec<String>)
    ensures
        vistas(r@) == lista_separada(s@),
{
    let trozos = partes_exec(s, ',');
    let ghost recortados = partes(s@, ',').map_values(|x: Seq<char>| recortar(x));
    let mut r: Vec<String> = Vec::new();
    let mut i: usize = 0;
    assert(recortados.take(0) =~= Seq::<Seq<char>>::empty());
    assert(vistas(r@) =~= no_vacios(recortados.take(0)));
    while i < trozos.len()
        invariant
            i <= trozos@.len(),
            vistas(trozos@) == partes(s@, ','),
            recortados == partes(s@, ',').map_values(|x: Seq<char>| recortar(x)),
            recortados.len() == trozos@.len(),
            vistas(r@) == no_vacios(recortados.take(i as int)),
        decreases trozos@.len() - i,
    {
        let t = recortar_texto(trozos[i].as_str());
        assert(trozos@[i as int]@ == vistas(trozos@)[i as int]);
        assert(recortados.take(i + 1).drop_last() =~= recortados.take(i as int));
        assert(recortados.take(i + 1).last() == t@);
        if t.unicode_len() != 0 {
            let ghost v0 = vistas(r@);
            r.push(t);
            assert(vistas(r@) =~= v0.push(recortados[i as int]));
        }
        i = i + 1;
    }
    assert(recortados.take(trozos@.len() as int) =~= recortados);
    r
}

/// The first whitespace-separated word of `s`: what
/// `s.split_whitespace().next()` gives.
pub open spec fn primera_palabra(s: Seq<char>) -> Option<Seq<char>> {
    let t = sin_espacios_inicio(s);
    if t.len() == 0 {
        None
    } else if exists|k: int| 0 <= k < t.len() && es_espacio(t[k]) {
        Some(t.take(choose|k: int| 0 <= k < t.len() && es_espacio(t[k]) && forall|m: int| 0 <= m < k ==> !es_espacio(t[m])))
    } else {
        Some(t)
    }
}

/// What `s.split_whitespace().next()` gives.
pub fn primera_palabra_exec(s: &str) -> (r: Option<String>)
    ensures
        match r {
            Some(t) => primera_palabra(s@) == Some(t@),
            None => primera_palabra(s@) is None,
        },
{
    let v = caracteres(s);
    let i = inicio_sin_espacios(&v);
    let n = v.len();
    if i == n {
        return None;
    }
    let ghost t = s@.skip(i as int);
    let mut j: usize = i;
    while j < n && !es_espacio_exec(v[j])
        invariant
            v@ == s@,
            n == v@.len(),
            i <= j <= n,
            forall|m: int| i <= m < j ==> !es_espacio(#[trigger] v@[m]),
        decreases n - j,
    {
        j = j + 1;
    }
    let ghost k = j - i;
    if j < n {
        assert(t[k] == v@[j as int]);
        assert(0 <= k < t.len() && es_espacio(t[k]));
        assert forall|m: int| 0 <= m < k implies !es_espacio(t[m]) by {
            assert(t[m] == v@[i + m]);
        }
        let ghost c = choose|k2: int| 0 <= k2 < t.len() && es_espacio(t[k2]) && forall|m: int| 0 <= m < k2 ==> !es_espacio(t[m]);
        assert(0 <= c < t.len() && es_espacio(t[c]) && forall|m: int| 0 <= m < c ==> !es_espacio(t[m]));
        proof {
            if c < k {
                assert(t[c] == v@[i + c]);
            } else if k < c {
                assert(!es_espacio(t[k]));
            }
        }
        assert(s@.subrange(i as int, j as int) =~= t.take(k));
    } else {
        assert forall|m: int| 0 <= m < t.len() implies !es_espacio(t[m]) by {
            assert(t[m] == v@[i + m]);
        }
        assert(s@.subrange(i as int, j as int) =~= t);
    }
    Some(String::from_str(s.substring_char(i, j)))
}

/// `s` with every trailing repetition of `p` removed: what
/// `s.trim_end_matches(p)` gives for a nonempty pattern.
pub open spec fn sin_sufijos(s: Seq<char>, p: Seq<char>) -> Seq<char>
    decreases s.len(),
{
    if p.len() > 0 && termina_con(s, p) {
        sin_sufijos(s.take(s.len() - p.len()), p)
    } else {
        s
    }
}

/// What `s.trim_end_matches(p)` gives, for a nonempty pattern `p`.
pub fn sin_sufijos_exec(s: &str, p: &str) -> (r: String)
    requires
        p@.len() > 0,
    ensures
        r@ == sin_sufijos(s@, p@),
{
    let v = caracteres(s);
    let pv = caracteres(p);
    let m = pv.len();
    let mut j: usize = v.len();
    assert(s@.take(j as int) =~= s@);
    while j >= m && aparece_en_exec(&v, &pv, j - m)
        invariant
            v@ == s@,
            pv@ == p@,
            m == p@.len(),
            m > 0,
            j <= v@.len(),
            sin_sufijos(s@, p@) == sin_sufijos(s@.take(j as int), p@),
        decreases j,
    {
        assert(s@.take(j as int).subrange(j - m, j as int) =~= s@.subrange(j - m, j as int));
        assert(s@.take(j as int).take(j - m) =~= s@.take(j - m));
        j = j - m;
    }
    if j >= m {
        assert(s@.take(j as int).subrange(j - m, j as int) =~= s@.subrange(j - m, j as int));
    }
    assert(s@.subrange(0, j as int) =~= s@.take(j as int));
    String::from_str(s.substring_char(0, j))
}

// ---------------------------------------------------------------------
// Decimal numbers
// ---------------------------------------------------------------------

pub open spec fn es_digito(c: char) -> bool {
    '0' <= c && c <= '9'
}

pub open spec fn valor_digito(c: char) -> int {
    c as int - '0' as int
}

pub open spec fn todos_digitos(s: Seq<char>) -> bool {
    forall|i: int| 0 <= i < s.len() ==> es_digito(#[trigger] s[i])
}

/// The value of a string of decimal digits.
pub open spec fn valor_decimal(s: Seq<char>) -> int
    decreases s.len(),
{
    if s.len() == 0 {
        0
    } else {
        valor_decimal(s.drop_last()) * 10 + valor_digito(s.last())
    }
}

/// The digits of an unsigned number in text: a leading `+` is skipped.
pub open spec fn cifras_sin_signo(s: Seq<char>) -> Seq<char> {
    if s.len() > 0 && s[0] == '+' {
        s.drop_first()
    } else {
        s
    }
}

/// What `str::parse` gives for an unsigned integer type whose largest
/// value is `max`: an optional `+`, then one or more decimal digits, with a
/// value no larger than `max`.
pub open spec fn natural_de(s: Seq<char>, max: int) -> Option<int> {
    let d = cifras_sin_signo(s);
    if d.len() > 0 && todos_digitos(d) && valor_decimal(d) <= max {
        Some(valor_decimal(d))
    } else {
        None
    }
}

/// What `str::parse` gives for a signed integer type with range
/// `[min, max]`: an optional sign, then one or more decimal digits.
pub open spec fn entero_de(s: Seq<char>, min: int, max: int) -> Option<int> {
    if s.len() > 0 && s[0] == '-' {
        let d = s.drop_first();
        if d.len() > 0 && todos_digitos(d) && min <= -valor_decimal(d) {
            Some(-valor_decimal(d))
        } else {
            None
        }
    } else {
        natural_de(s, max)
    }
}

pub proof fn lema_valor_no_negativo(s: Seq<char>)
    requires
        todos_digitos(s),
    ensures
        valor_decimal(s) >= 0,
    decreases s.len(),
{
    if s.len() > 0 {
        lema_valor_no_negativo(s.drop_last());
    }
}

/// A longer string of digits is worth at least as much as its prefix.
pub proof fn lema_valor_prefijo(s: Seq<char>, k: int)
    requires
        todos_digitos(s),
        0 <= k <= s.len(),
    ensures
        valor_decimal(s.take(k)) <= valor_decimal(s),
    decreases s.len(),
{
    if k < s.len() {
        lema_valor_prefijo(s.drop_last(), k);
        assert(s.drop_last().take(k) =~= s.take(k));
        lema_valor_no_negativo(s.drop_last());
    } else {
        assert(s.take(k) =~= s);
    }
}

/// The value of the digits `d[desde..]`, if they are all digits and the
/// value is at most `max`.
fn valor_cifras(d: &Vec<char>, desde: usize, max: u64) -> (r: Option<u64>)
    requires
        desde <= d@.len(),
    ensures
        ({
            let t = d@.skip(desde as int);
            match r {
                Some(v) => todos_digitos(t) && valor_decimal(t) <= max && v == valor_decimal(t),
                None => !(todos_digitos(t) && valor_decimal(t) <= max),
            }
        }),
{
    let ghost t = d@.skip(desde as int);
    let n = d.len();
    let mut acc: u64 = 0;
    let mut i: usize = desde;
    assert(t.take(0) =~= Seq::<char>::empty());
    while i < n
        invariant
            n == d@.len(),
            desde <= i <= n,
            t == d@.skip(desde as int),
            todos_digitos(t.take(i - desde)),
            acc == valor_decimal(t.take(i - desde)),
            acc <= max,
        decreases n - i,
    {
        let c = d[i];
        let ghost k = i - desde;
        assert(t[k] == c);
        if !('0' <= c && c <= '9') {
            return None;
        }
        let dig = (c as u32 - '0' as u32) as u64;
        assert(t.take(k + 1).drop_last() =~= t.take(k));
        assert(t.take(k + 1).last() == c);
        let nuevo: u128 = acc as u128 * 10 + dig as u128;
        if nuevo > max as u128 {
            proof {
                assert(todos_digitos(t.take(k + 1)));
                if todos_digitos(t) {
                    lema_valor_prefijo(t, k + 1);
                }
            }
            return None;
        }
        acc = nuevo as u64;
        i = i + 1;
    }
    assert(t.take(n - desde) =~= t);
    Some(acc)
}

/// What `str::parse` gives for an unsigned integer type whose largest value
/// is `max` (see `natural_de`).
pub fn natural_de_exec(s: &str, max: u64) -> (r: Option<u64>)
    ensures
        match r {
            Some(v) => natural_de(s@, max as int) == Some(v as int),
            None => natural_de(s@, max as int) is None,
        },
{
    let v = caracteres(s);
    let desde: usize = if v.len() > 0 && v[0] == '+' {
        1
    } else {
        0
    };
    assert(v@.skip(desde as int) =~= cifras_sin_signo(s@));
    if desde == v.len() {
        return None;
    }
    valor_cifras(&v, desde, max)
}

/// What `str::parse::<i32>` gives (see `entero_de`).
pub fn i32_de_exec(s: &str) -> (r: Option<i32>)
    ensures
        match r {
            Some(v) => entero_de(s@, i32::MIN as int, i32::MAX as int) == Some(v as int),
            None => entero_de(s@, i32::MIN as int, i32::MAX as int) is None,
        },
{
    let v = caracteres(s);
    if v.len() > 0 && v[0] == '-' {
        assert(v@.skip(1) =~= s@.drop_first());
        if v.len() == 1 {
            return None;
        }
        match valor_cifras(&v, 1, 2147483648) {
            Some(x) => {
                let r: i64 = 0 - (x as i64);
                Some(r as i32)
            },
            None => None,
        }
    } else {
        match natural_de_exec(s, 2147483647) {
            Some(x) => Some(x as i32),
            None => None,
        }
    }
}

/// The decimal digits of `n`.
pub open spec fn cifras_de(n: nat) -> Seq<char>
    decreases n,
{
    if n < 10 {
        seq![caracter_digito(n)]
    } else {
        cifras_de(n / 10).push(caracter_digito(n % 10))
    }
}

pub open spec fn caracter_digito(d: nat) -> char {
    (d + '0' as nat) as char
}

/// What `i32::to_string` gives: an optional minus sign, then the digits.
pub open spec fn texto_entero(n: int) -> Seq<char> {
    if n < 0 {
        seq!['-'] + cifras_de((-n) as nat)
    } else {
        cifras_de(n as nat)
    }
}

/// The one-character text of a digit.
fn texto_digito(d: u32) -> (r: &'static str)
    requires
        d < 10,
    ensures
        r@ == seq![caracter_digito(d as nat)],
{
    match d {
        0 => {
            proof { reveal_strlit("0"); }
            "0"
        },
        1 => {
            proof { reveal_strlit("1"); }
            "1"
        },
        2 => {
            proof { reveal_strlit("2"); }
            "2"
        },
        3 => {
            proof { reveal_strlit("3"); }
            "3"
        },
        4 => {
            proof { reveal_strlit("4"); }
            "4"
        },
        5 => {
            proof { reveal_strlit("5"); }
            "5"
        },
        6 => {
            proof { reveal_strlit("6"); }
            "6"
        },
        7 => {
            proof { reveal_strlit("7"); }
            "7"
        },
        8 => {
            proof { reveal_strlit("8"); }
            "8"
        },
        _ => {
            proof { reveal_strlit("9"); }
            "9"
        },
    }
}

/// The digits of `n`.
fn cifras_exec(n: u32) -> (r: String)
    ensures
        r@ == cifras_de(n as nat),
    decreases n,
{
    if n < 10 {
        String::from_str(texto_digito(n))
    } else {
        let mut r = cifras_exec(n / 10);
        r.append(texto_digito(n % 10));
        r
    }
}

/// What `i32::to_string` gives.
pub fn texto_entero_exec(n: i32) -> (r: String)
    ensures
        r@ == texto_entero(n as int),
{
    if n < 0 {
        let m: u32 = (0 - (n as i64)) as u32;
        let menos = "-";
        proof { reveal_strlit("-"); }
        let mut r = String::from_str(menos);
        r.append(cifras_exec(m).as_str());
        r
    } else {
        cifras_exec(n as u32)
    }
}

// ---------------------------------------------------------------------
// Conversions done by std
// ---------------------------------------------------------------------

/// The text that `str::to_lowercase` gives for `s`.
pub uninterp spec fn minusculas(s: Seq<char>) -> Seq<char>;

/// What lowercasing does to an ASCII character: `A`-`Z` become `a`-`z`,
/// every other character stays.
pub open spec fn minuscula_ascii(c: char) -> char {
    if 'A' <= c && c <= 'Z' {
        ((c as int) + 32) as char
    } else {
        c
    }
}

/// Every character of `s` is ASCII.
pub open spec fn es_ascii(s: Seq<char>) -> bool {
    forall|i: int| 0 <= i < s.len() ==> (#[trigger] s[i] as int) < 128
}

/// `a` and `b` differ at most in the case of ASCII letters.
pub open spec fn igual_sin_mayusculas(a: Seq<char>, b: Seq<char>) -> bool {
    a.len() == b.len() && forall|i: int| 0 <= i < a.len() ==> minuscula_ascii(#[trigger] a[i]) == minuscula_ascii(b[i])
}

/// Calls `str::to_lowercase`, which maps each character by Unicode's
/// lowercase mapping: on ASCII text that mapping is the ASCII one, and
/// texts that differ only in the case of ASCII letters lowercase alike (an
/// ASCII letter is cased in either case, so even the context-dependent
/// final sigma is unaffected).
#[verifier::external_body]
pub(crate) fn minusculas_exec(s: &str) -> (r: String)
    ensures
        r@ == minusculas(s@),
        es_ascii(s@) ==> r@ == s@.map_values(|c: char| minuscula_ascii(c)),
        forall|t: Seq<char>| #[trigger] igual_sin_mayusculas(s@, t) ==> minusculas(t) == r@,
{
    s.to_lowercase()
}

/// The text that `String::from_utf8_lossy` gives for the bytes `b`.
pub uninterp spec fn utf8_con_reemplazo(b: Seq<u8>) -> Seq<char>;

/// Calls `String::from_utf8_lossy`: bytes that are valid UTF-8 decode to
/// their text; which replacement characters stand for invalid sequences is
/// left to the name.
#[verifier::external_body]
pub(crate) fn utf8_con_reemplazo_exec(b: &[u8]) -> (r: String)
    ensures
        r@ == utf8_con_reemplazo(b@),
        vstd::utf8::valid_utf8(b@) ==> r@ == vstd::utf8::decode_utf8(b@),
{
    String::from_utf8_lossy(b).into_owned()
}


/// A setting read from the environment: the value when it is present and
/// parses as an unsigned integer no larger than `max`, else `por_defecto`.
/// What `v.ok().and_then(|v| v.parse().ok()).unwrap_or(por_defecto)` gives.
pub open spec fn ajuste_o(valor: Option<Seq<char>>, max: int, por_defecto: int) -> int {
    match valor {
        Some(v) => match natural_de(v, max) {
            Some(n) => n,
            None => por_defecto,
        },
        None => por_defecto,
    }
}

/// A `u64` setting (see `ajuste_o`).
pub fn ajuste_u64(valor: Option<&str>, por_defecto: u64) -> (r: u64)
    ensures
        r == ajuste_o(valor.deep_view(), u64::MAX as int, por_defecto as int),
{
    match valor {
        Some(v) => match natural_de_exec(v, u64::MAX) {
            Some(n) => n,
            None => por_defecto,
        },
        None => por_defecto,
    }
}

/// A `u16` setting (see `ajuste_o`).
pub fn ajuste_u16(valor: Option<&str>, por_defecto: u16) -> (r: u16)
    ensures
        r == ajuste_o(valor.deep_view(), u16::MAX as int, por_defecto as int),
{
    match valor {
        Some(v) => match natural_de_exec(v, 65535) {
            Some(n) => n as u16,
            None => por_defecto,
        },
        None => por_defecto,
    }
}

} // verus!
