//! Operações sobre texto com especificação: caracteres, substituição,
//! junção, números em decimal e alinhamento.

use vstd::prelude::*;

verus! {

/// Os caracteres de um texto, em ordem.
pub fn caracteres(s: &str) -> (r: Vec<char>)
    ensures
        r@ == s@,
{
    let mut r: Vec<char> = Vec::new();
    for c in it: s.chars()
        invariant
            r@ == it.seq().take(it.index() as int),
            it.seq() == s@,
    {
        r.push(c);
    }
    r
}

/// O texto formado por uma sequência de caracteres.
#[verifier::external_body]
pub(crate) fn texto_de(v: &Vec<char>) -> (r: String)
    ensures
        r@ == v@,
{
    v.iter().collect()
}

pub fn menor_char(a: char, b: char) -> (r: bool)
    ensures r == ((a as int) < (b as int)),
{
    (a as u32) < (b as u32)
}

} // verus!

verus! {

/// Ordem lexicográfica entre textos, caractere a caractere pelo código
/// Unicode; um prefixo próprio vem antes. É a ordem de `String` em Rust.
pub open spec fn lex_menor(a: Seq<char>, b: Seq<char>) -> bool
    decreases a.len(),
{
    if a.len() == 0 {
        b.len() > 0
    } else if b.len() == 0 {
        false
    } else if a[0] == b[0] {
        lex_menor(a.drop_first(), b.drop_first())
    } else {
        (a[0] as int) < (b[0] as int)
    }
}

pub proof fn lema_lex_irreflexivo(a: Seq<char>)
    ensures
        !lex_menor(a, a),
    decreases a.len(),
{
    if a.len() > 0 {
        lema_lex_irreflexivo(a.drop_first());
    }
}

pub proof fn lema_lex_total(a: Seq<char>, b: Seq<char>)
    ensures
        a != b ==> (lex_menor(a, b) || lex_menor(b, a)),
        !(lex_menor(a, b) && lex_menor(b, a)),
    decreases a.len(),
{
    if a.len() > 0 && b.len() > 0 {
        lema_lex_total(a.drop_first(), b.drop_first());
        if a[0] == b[0] && a != b {
            assert(a =~= seq![a[0]] + a.drop_first());
            assert(b =~= seq![b[0]] + b.drop_first());
        }
        if a[0] != b[0] {
            assert((a[0] as int) != (b[0] as int));
        }
    } else if a.len() == 0 && b.len() == 0 {
        assert(a =~= b);
    }
}

pub proof fn lema_lex_transitivo(a: Seq<char>, b: Seq<char>, c: Seq<char>)
    requires
        lex_menor(a, b),
        lex_menor(b, c),
    ensures
        lex_menor(a, c),
    decreases a.len(),
{
    if a.len() > 0 && b.len() > 0 && c.len() > 0 {
        if a[0] == b[0] && b[0] == c[0] {
            lema_lex_transitivo(a.drop_first(), b.drop_first(), c.drop_first());
        }
    }
}

/// Compara dois textos pela ordem de `lex_menor`.
pub fn lex_menor_exec(a: &str, b: &str) -> (r: bool)
    ensures
        r == lex_menor(a@, b@),
{
    let va = caracteres(a);
    let vb = caracteres(b);
    let mut i: usize = 0;
    assert(va@.skip(0) =~= va@);
    assert(vb@.skip(0) =~= vb@);
    while i < va.len() && i < vb.len() && va[i] == vb[i]
        invariant
            0 <= i <= va@.len(),
            i <= vb@.len(),
            va@.take(i as int) == vb@.take(i as int),
            lex_menor(va@, vb@) == lex_menor(va@.skip(i as int), vb@.skip(i as int)),
        decreases va@.len() - i,
    {
        assert(va@.skip(i as int).drop_first() =~= va@.skip(i + 1));
        assert(vb@.skip(i as int).drop_first() =~= vb@.skip(i + 1));
        assert(va@.take(i + 1) =~= va@.take(i as int).push(va@[i as int]));
        assert(vb@.take(i + 1) =~= vb@.take(i as int).push(vb@[i as int]));
        i = i + 1;
    }
    if i == va.len() {
        i < vb.len()
    } else if i == vb.len() {
        false
    } else {
        menor_char(va[i], vb[i])
    }
}

/// Igualdade de textos.
pub fn textos_iguais(a: &str, b: &str) -> (r: bool)
    ensures
        r == (a@ == b@),
{
    let va = caracteres(a);
    let vb = caracteres(b);
    if va.len() != vb.len() {
        return false;
    }
    let mut i: usize = 0;
    while i < va.len()
        invariant
            va@ == a@,
            vb@ == b@,
            va@.len() == vb@.len(),
            0 <= i <= va@.len(),
            forall|j: int| 0 <= j < i ==> va@[j] == vb@[j],
        decreases va@.len() - i,
    {
        if va[i] != vb[i] {
            assert(va@[i as int] != vb@[i as int]);
            return false;
        }
        i = i + 1;
    }
    assert(va@ =~= vb@);
    true
}

} // verus!

verus! {

/// Substitui, da esquerda para a direita e sem sobreposição, cada
/// ocorrência de `p` em `s` por `r` (a semântica de `str::replace` para
/// padrão não vazio). Com padrão vazio o texto fica como está.
pub open spec fn substituir(s: Seq<char>, p: Seq<char>, r: Seq<char>) -> Seq<char>
    decreases s.len(),
{
    if s.len() == 0 || p.len() == 0 {
        s
    } else if p.len() <= s.len() && s.take(p.len() as int) == p {
        r + substituir(s.skip(p.len() as int), p, r)
    } else {
        seq![s[0]] + substituir(s.drop_first(), p, r)
    }
}

/// Sem ocorrência do padrão, o texto fica como está.
pub proof fn lema_substituir_sem_ocorrencia(s: Seq<char>, p: Seq<char>, r: Seq<char>)
    requires
        forall|i: int| !#[trigger] ocorre_em(s, p, i),
    ensures
        substituir(s, p, r) == s,
    decreases s.len(),
{
    if s.len() > 0 && p.len() > 0 {
        if p.len() <= s.len() && s.take(p.len() as int) == p {
            assert(s.subrange(0, p.len() as int) =~= s.take(p.len() as int));
            assert(ocorre_em(s, p, 0));
        }
        let t = s.drop_first();
        assert forall|i: int| !#[trigger] ocorre_em(t, p, i) by {
            if ocorre_em(t, p, i) {
                assert(s.subrange(i + 1, i + 1 + p.len()) =~= t.subrange(i, i + p.len()));
                assert(ocorre_em(s, p, i + 1));
            }
        }
        lema_substituir_sem_ocorrencia(t, p, r);
        assert(seq![s[0]] + t =~= s);
    }
}

/// `p` ocorre em `s` a partir da posição `i`.
pub open spec fn ocorre_em(s: Seq<char>, p: Seq<char>, i: int) -> bool {
    0 <= i && i + p.len() <= s.len() && s.subrange(i, i + p.len()) == p
}

fn casa_em(s: &Vec<char>, p: &Vec<char>, i: usize) -> (r: bool)
    requires
        i <= s@.len(),
    ensures
        r == ocorre_em(s@, p@, i as int),
{
    if p.len() > s.len() - i {
        return false;
    }
    let mut j: usize = 0;
    while j < p.len()
        invariant
            s@.len() <= usize::MAX,
            i + p@.len() <= s@.len(),
            0 <= j <= p@.len(),
            forall|t: int| 0 <= t < j ==> s@[i + t] == p@[t],
        decreases p@.len() - j,
    {
        if s[i + j] != p[j] {
            assert(s@.subrange(i as int, i + p@.len())[j as int] != p@[j as int]);
            return false;
        }
        j = j + 1;
    }
    assert(s@.subrange(i as int, i + p@.len()) =~= p@);
    true
}

/// Substituição de todas as ocorrências de um padrão não vazio.
pub fn substituir_exec(s: &str, p: &str, r: &str) -> (res: String)
    requires
        p@.len() > 0,
    ensures
        res@ == substituir(s@, p@, r@),
{
    let vs = caracteres(s);
    let vp = caracteres(p);
    let vr = caracteres(r);
    let mut saida: Vec<char> = Vec::new();
    let mut i: usize = 0;
    assert(vs@.skip(0) =~= vs@);
    while i < vs.len()
        invariant
            vs@ == s@,
            vp@ == p@,
            vr@ == r@,
            p@.len() > 0,
            0 <= i <= vs@.len(),
            substituir(s@, p@, r@) == saida@ + substituir(vs@.skip(i as int), p@, r@),
        decreases vs@.len() - i,
    {
        let ghost resto = vs@.skip(i as int);
        if casa_em(&vs, &vp, i) {
            assert(resto.take(p@.len() as int) =~= vs@.subrange(i as int, i + p@.len()));
            assert(resto.skip(p@.len() as int) =~= vs@.skip(i + p@.len()));
            let mut j: usize = 0;
            let ghost antes = saida@;
            while j < vr.len()
                invariant
                    0 <= j <= vr@.len(),
                    saida@ == antes + vr@.take(j as int),
                decreases vr@.len() - j,
            {
                saida.push(vr[j]);
                j = j + 1;
                assert(saida@ =~= antes + vr@.take(j as int));
            }
            assert(vr@.take(vr@.len() as int) =~= vr@);
            assert(saida@ + substituir(vs@.skip(i + p@.len()), p@, r@) =~= antes + (r@ + substituir(resto.skip(p@.len() as int), p@, r@)));
            i = i + vp.len();
        } else {
            assert(!(resto.take(p@.len() as int) == p@ && p@.len() <= resto.len())) by {
                if p@.len() <= resto.len() {
                    assert(resto.take(p@.len() as int) =~= vs@.subrange(i as int, i + p@.len()));
                }
            }
            assert(resto.drop_first() =~= vs@.skip(i + 1));
            let ghost antes = saida@;
            saida.push(vs[i]);
            assert(saida@ + substituir(vs@.skip(i + 1), p@, r@) =~= antes + (seq![resto[0]] + substituir(resto.drop_first(), p@, r@)));
            i = i + 1;
        }
    }
    assert(vs@.skip(i as int) =~= Seq::<char>::empty());
    assert(saida@ + Seq::<char>::empty() =~= saida@);
    texto_de(&saida)
}

/// Junção com separador (a semântica de `join`).
pub open spec fn unir(lista: Seq<Seq<char>>, sep: Seq<char>) -> Seq<char>
    decreases lista.len(),
{
    if lista.len() == 0 {
        Seq::empty()
    } else if lista.len() == 1 {
        lista[0]
    } else {
        unir(lista.drop_last(), sep) + sep + lista.last()
    }
}

/// Os textos de uma lista de `String`.
pub open spec fn textos(v: Seq<String>) -> Seq<Seq<char>> {
    v.map_values(|s: String| s@)
}

pub fn unir_exec(lista: &Vec<String>, sep: &str) -> (r: String)
    ensures
        r@ == unir(textos(lista@), sep@),
{
    let mut r = String::new();
    let ghost l = textos(lista@);
    let mut i: usize = 0;
    while i < lista.len()
        invariant
            l == textos(lista@),
            0 <= i <= lista@.len(),
            r@ == unir(l.take(i as int), sep@),
        decreases lista@.len() - i,
    {
        assert(l.take(i + 1).drop_last() =~= l.take(i as int));
        if i != 0 {
            r.append(sep);
        } else {
            assert(r@ =~= Seq::<char>::empty());
        }
        r.append(lista[i].as_str());
        i = i + 1;
        assert(r@ =~= unir(l.take(i as int), sep@));
    }
    assert(l.take(lista@.len() as int) =~= l);
    r
}

pub open spec fn digito(d: nat) -> char {
    if d == 0 { '0' }
    else if d == 1 { '1' }
    else if d == 2 { '2' }
    else if d == 3 { '3' }
    else if d == 4 { '4' }
    else if d == 5 { '5' }
    else if d == 6 { '6' }
    else if d == 7 { '7' }
    else if d == 8 { '8' }
    else { '9' }
}

/// Representação decimal de um número natural, sem zeros à esquerda.
pub open spec fn decimal(n: nat) -> Seq<char>
    decreases n,
{
    if n < 10 {
        seq![digito(n)]
    } else {
        decimal(n / 10) + seq![digito(n % 10)]
    }
}

fn digito_exec(d: usize) -> (c: char)
    requires
        d < 10,
    ensures
        c == digito(d as nat),
{
    if d == 0 { '0' }
    else if d == 1 { '1' }
    else if d == 2 { '2' }
    else if d == 3 { '3' }
    else if d == 4 { '4' }
    else if d == 5 { '5' }
    else if d == 6 { '6' }
    else if d == 7 { '7' }
    else if d == 8 { '8' }
    else { '9' }
}

fn decimal_chars(n: u128) -> (r: Vec<char>)
    ensures
        r@ == decimal(n as nat),
    decreases n,
{
    if n < 10 {
        let mut v = Vec::new();
        v.push(digito_exec(n as usize));
        assert(v@ =~= seq![digito(n as nat)]);
        v
    } else {
        let mut v = decimal_chars(n / 10);
        v.push(digito_exec((n % 10) as usize));
        v
    }
}

/// O número em decimal, como `usize::to_string`.
pub fn decimal_exec(n: usize) -> (r: String)
    ensures
        r@ == decimal(n as nat),
{
    texto_de(&decimal_chars(n as u128))
}

/// O número em decimal, como `u128::to_string`.
pub fn decimal_u128(n: u128) -> (r: String)
    ensures
        r@ == decimal(n as nat),
{
    texto_de(&decimal_chars(n))
}

/// `n` espaços.
pub open spec fn espacos(n: nat) -> Seq<char> {
    Seq::new(n, |i: int| ' ')
}

/// Alinhamento à esquerda em largura mínima `w` (o `{:<w}` de `format!`,
/// que conta caracteres).
pub open spec fn alinhar(s: Seq<char>, w: nat) -> Seq<char> {
    if s.len() >= w {
        s
    } else {
        s + espacos((w - s.len()) as nat)
    }
}

pub fn alinhar_exec(s: &str, w: usize) -> (r: String)
    ensures
        r@ == alinhar(s@, w as nat),
{
    let mut v = caracteres(s);
    let ghost orig = v@;
    while v.len() < w
        invariant
            orig == s@,
            orig.len() <= v@.len(),
            orig.len() >= w ==> v@.len() == orig.len(),
            orig.len() < w ==> v@.len() <= w,
            v@ == orig + espacos((v@.len() - orig.len()) as nat),
        decreases w - v@.len(),
    {
        v.push(' ');
        assert(v@ =~= orig + espacos((v@.len() - orig.len()) as nat));
    }
    proof {
        if orig.len() >= w {
            assert(v@ =~= orig);
        } else {
            assert(v@.len() == w);
        }
    }
    texto_de(&v)
}

/// Código de um caractere com as maiúsculas ASCII trocadas pelas minúsculas.
pub open spec fn minuscula_ascii(c: char) -> int {
    if 65 <= (c as int) <= 90 {
        (c as int) + 32
    } else {
        c as int
    }
}

/// Igualdade sem distinguir maiúsculas de minúsculas ASCII
/// (`str::eq_ignore_ascii_case`).
pub open spec fn iguais_sem_caixa_ascii(a: Seq<char>, b: Seq<char>) -> bool {
    a.len() == b.len() && forall|i: int| 0 <= i < a.len() ==> minuscula_ascii(#[trigger] a[i]) == minuscula_ascii(b[i])
}

fn minuscula_ascii_exec(c: char) -> (r: u32)
    ensures
        r as int == minuscula_ascii(c),
{
    let x = c as u32;
    if 65 <= x && x <= 90 {
        x + 32
    } else {
        x
    }
}

pub fn iguais_sem_caixa_ascii_exec(a: &str, b: &str) -> (r: bool)
    ensures
        r == iguais_sem_caixa_ascii(a@, b@),
{
    let va = caracteres(a);
    let vb = caracteres(b);
    if va.len() != vb.len() {
        return false;
    }
    let mut i: usize = 0;
    while i < va.len()
        invariant
            va@ == a@,
            vb@ == b@,
            va@.len() == vb@.len(),
            0 <= i <= va@.len(),
            forall|j: int| 0 <= j < i ==> minuscula_ascii(#[trigger] va@[j]) == minuscula_ascii(vb@[j]),
        decreases va@.len() - i,
    {
        if minuscula_ascii_exec(va[i]) != minuscula_ascii_exec(vb[i]) {
            return false;
        }
        i = i + 1;
    }
    true
}

} // verus!

verus! {

/// Espaço em branco Unicode (propriedade `White_Space`, a de
/// `char::is_whitespace`).
pub open spec fn espaco(c: char) -> bool {
    let x = c as int;
    (0x9 <= x <= 0xD) || x == 0x20 || x == 0x85 || x == 0xA0 || x == 0x1680
        || (0x2000 <= x <= 0x200A) || x == 0x2028 || x == 0x2029 || x == 0x202F
        || x == 0x205F || x == 0x3000
}

fn espaco_exec(c: char) -> (r: bool)
    ensures
        r == espaco(c),
{
    let x = c as u32;
    (0x9 <= x && x <= 0xD) || x == 0x20 || x == 0x85 || x == 0xA0 || x == 0x1680
        || (0x2000 <= x && x <= 0x200A) || x == 0x2028 || x == 0x2029 || x == 0x202F
        || x == 0x205F || x == 0x3000
}

pub open spec fn sem_espaco_inicial(s: Seq<char>) -> Seq<char>
    decreases s.len(),
{
    if s.len() > 0 && espaco(s[0]) {
        sem_espaco_inicial(s.drop_first())
    } else {
        s
    }
}

pub open spec fn sem_espaco_final(s: Seq<char>) -> Seq<char>
    decreases s.len(),
{
    if s.len() > 0 && espaco(s.last()) {
        sem_espaco_final(s.drop_last())
    } else {
        s
    }
}

/// Texto sem os espaços das pontas (`str::trim`).
pub open spec fn aparar(s: Seq<char>) -> Seq<char> {
    sem_espaco_final(sem_espaco_inicial(s))
}

pub fn aparar_exec(s: &str) -> (r: String)
    ensures
        r@ == aparar(s@),
{
    let v = caracteres(s);
    let mut a: usize = 0;
    assert(v@.skip(0) =~= v@);
    while a < v.len() && espaco_exec(v[a])
        invariant
            v@ == s@,
            0 <= a <= v@.len(),
            sem_espaco_inicial(s@) == sem_espaco_inicial(v@.skip(a as int)),
        decreases v@.len() - a,
    {
        assert(v@.skip(a as int).drop_first() =~= v@.skip(a + 1));
        a = a + 1;
    }
    let ghost meio = v@.skip(a as int);
    let mut b: usize = v.len();
    assert(v@.subrange(a as int, b as int) =~= meio);
    while b > a && espaco_exec(v[b - 1])
        invariant
            v@ == s@,
            meio == v@.skip(a as int),
            sem_espaco_inicial(s@) == meio,
            0 <= a <= b <= v@.len(),
            aparar(s@) == sem_espaco_final(v@.subrange(a as int, b as int)),
        decreases b,
    {
        assert(v@.subrange(a as int, b as int).drop_last() =~= v@.subrange(a as int, b - 1));
        b = b - 1;
    }
    let mut r: Vec<char> = Vec::new();
    let mut i: usize = a;
    while i < b
        invariant
            0 <= a <= i <= b <= v@.len(),
            r@ == v@.subrange(a as int, i as int),
        decreases b - i,
    {
        r.push(v[i]);
        i = i + 1;
        assert(r@ =~= v@.subrange(a as int, i as int));
    }
    texto_de(&r)
}

/// Trecho inicial até (exclusive) o primeiro caractere de `seps`; o texto
/// inteiro se nenhum ocorre. É o primeiro pedaço de `split` com esses
/// separadores.
pub open spec fn prefixo_ate(s: Seq<char>, seps: Seq<char>) -> Seq<char>
    decreases s.len(),
{
    if s.len() == 0 {
        s
    } else if seps.contains(s[0]) {
        Seq::empty()
    } else {
        seq![s[0]] + prefixo_ate(s.drop_first(), seps)
    }
}

/// O que vem depois do primeiro caractere de `seps`, se algum ocorre.
pub open spec fn resto_apos(s: Seq<char>, seps: Seq<char>) -> Option<Seq<char>>
    decreases s.len(),
{
    if s.len() == 0 {
        None
    } else if seps.contains(s[0]) {
        Some(s.drop_first())
    } else {
        resto_apos(s.drop_first(), seps)
    }
}

/// Divide no primeiro caractere de `seps`: (antes, depois); sem separador,
/// o depois é `None` (é o `splitn(2, ..)`).
pub fn dividir_no_primeiro(s: &str, seps: &Vec<char>) -> (r: (String, Option<String>))
    ensures
        r.0@ == prefixo_ate(s@, seps@),
        match r.1 {
            Some(d) => resto_apos(s@, seps@) == Some(d@),
            None => resto_apos(s@, seps@) is None,
        },
{
    let v = caracteres(s);
    let mut i: usize = 0;
    let mut antes: Vec<char> = Vec::new();
    assert(v@.skip(0) =~= v@);
    while i < v.len() && !contem_char(seps, v[i])
        invariant
            v@ == s@,
            0 <= i <= v@.len(),
            prefixo_ate(s@, seps@) == antes@ + prefixo_ate(v@.skip(i as int), seps@),
            resto_apos(s@, seps@) == resto_apos(v@.skip(i as int), seps@),
        decreases v@.len() - i,
    {
        assert(v@.skip(i as int).drop_first() =~= v@.skip(i + 1));
        let ghost a0 = antes@;
        antes.push(v[i]);
        assert(antes@ + prefixo_ate(v@.skip(i + 1), seps@) =~= a0 + (seq![v@[i as int]] + prefixo_ate(v@.skip(i + 1), seps@)));
        i = i + 1;
    }
    if i == v.len() {
        assert(antes@ + Seq::<char>::empty() =~= antes@);
        (texto_de(&antes), None)
    } else {
        assert(antes@ + Seq::<char>::empty() =~= antes@);
        let mut depois: Vec<char> = Vec::new();
        let mut j: usize = i + 1;
        while j < v.len()
            invariant
                i < v@.len(),
                i + 1 <= j <= v@.len(),
                depois@ == v@.subrange(i + 1, j as int),
            decreases v@.len() - j,
        {
            depois.push(v[j]);
            j = j + 1;
            assert(depois@ =~= v@.subrange(i + 1, j as int));
        }
        assert(v@.skip(i as int).drop_first() =~= v@.subrange(i + 1, v@.len() as int));
        (texto_de(&antes), Some(texto_de(&depois)))
    }
}

fn contem_char(v: &Vec<char>, c: char) -> (r: bool)
    ensures
        r == v@.contains(c),
{
    let mut i: usize = 0;
    while i < v.len()
        invariant
            0 <= i <= v@.len(),
            forall|j: int| 0 <= j < i ==> v@[j] != c,
        decreases v@.len() - i,
    {
        if v[i] == c {
            assert(v@[i as int] == c);
            return true;
        }
        i = i + 1;
    }
    false
}

/// O texto em minúsculas segundo o Unicode, como o dá `str::to_lowercase`.
pub uninterp spec fn minusculas(s: Seq<char>) -> Seq<char>;

/// Só caracteres ASCII.
pub open spec fn eh_ascii(s: Seq<char>) -> bool {
    forall|i: int| 0 <= i < s.len() ==> (#[trigger] s[i] as int) < 128
}

/// O texto com as maiúsculas ASCII trocadas pelas minúsculas.
pub open spec fn minusculas_ascii(s: Seq<char>) -> Seq<char> {
    Seq::new(s.len(), |i: int| minuscula_ascii(s[i]) as char)
}

/// Chama `str::to_lowercase`. O contrato afirma que o resultado é função
/// do texto dado e, para texto ASCII, que é o texto com `A`–`Z` trocados
/// por `a`–`z` (no ASCII, o mapeamento de caixa do Unicode é esse); fora
/// do ASCII o mapeamento não é escrito.
#[verifier::external_body]
pub(crate) fn minusculas_exec(s: &str) -> (r: String)
    ensures
        r@ == minusculas(s@),
        eh_ascii(s@) ==> r@ == minusculas_ascii(s@),
{
    s.to_lowercase()
}

} // verus!

verus! {

/// Os textos de uma lista de `&str`.
pub open spec fn textos_str(v: Seq<&str>) -> Seq<Seq<char>> {
    v.map_values(|s: &str| s@)
}

} // verus!
