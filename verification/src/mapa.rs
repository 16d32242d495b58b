//! Mapa de texto para valor, mantido em ordem crescente de chave — a
//! mesma ordem de percurso de um `BTreeMap<String, _>`.

use vstd::prelude::*;

use crate::texto::{textos, lex_menor, lex_menor_exec, textos_iguais, lema_lex_irreflexivo, lema_lex_total, lema_lex_transitivo};

verus! {

/// Chaves em ordem estritamente crescente (portanto sem repetição).
pub open spec fn crescente<V>(s: Seq<(Seq<char>, V)>) -> bool {
    forall|i: int, j: int| 0 <= i < j < s.len() ==> lex_menor(#[trigger] s[i].0, #[trigger] s[j].0)
}

/// Primeira entrada com a chave dada.
pub open spec fn buscar<V>(s: Seq<(Seq<char>, V)>, k: Seq<char>) -> Option<V>
    decreases s.len(),
{
    if s.len() == 0 {
        None
    } else if s[0].0 == k {
        Some(s[0].1)
    } else {
        buscar(s.drop_first(), k)
    }
}

/// Inserção em sequência ordenada: substitui o valor de uma chave já
/// presente ou a coloca antes da primeira chave maior.
pub open spec fn inserir_ordenado<V>(s: Seq<(Seq<char>, V)>, k: Seq<char>, v: V) -> Seq<(Seq<char>, V)>
    decreases s.len(),
{
    if s.len() == 0 {
        seq![(k, v)]
    } else if s[0].0 == k {
        seq![(k, v)] + s.drop_first()
    } else if lex_menor(k, s[0].0) {
        seq![(k, v)] + s
    } else {
        seq![s[0]] + inserir_ordenado(s.drop_first(), k, v)
    }
}

/// As chaves, em ordem.
pub open spec fn chaves_de<V>(s: Seq<(Seq<char>, V)>) -> Seq<Seq<char>> {
    s.map_values(|e: (Seq<char>, V)| e.0)
}

pub proof fn lema_buscar_indice<V>(s: Seq<(Seq<char>, V)>, k: Seq<char>, i: int)
    requires
        0 <= i < s.len(),
        s[i].0 == k,
        forall|j: int| 0 <= j < i ==> s[j].0 != k,
    ensures
        buscar(s, k) == Some(s[i].1),
    decreases i,
{
    if i > 0 {
        lema_buscar_indice(s.drop_first(), k, i - 1);
    }
}

pub proof fn lema_buscar_ausente<V>(s: Seq<(Seq<char>, V)>, k: Seq<char>)
    requires
        forall|j: int| 0 <= j < s.len() ==> s[j].0 != k,
    ensures
        buscar(s, k) is None,
    decreases s.len(),
{
    if s.len() > 0 {
        lema_buscar_ausente(s.drop_first(), k);
    }
}

/// Numa sequência crescente, achar a chave em `i` basta.
pub proof fn lema_buscar_crescente<V>(s: Seq<(Seq<char>, V)>, k: Seq<char>, i: int)
    requires
        crescente(s),
        0 <= i < s.len(),
        s[i].0 == k,
    ensures
        buscar(s, k) == Some(s[i].1),
{
    assert forall|j: int| 0 <= j < i implies s[j].0 != k by {
        assert(lex_menor(s[j].0, s[i].0));
        lema_lex_irreflexivo(k);
    }
    lema_buscar_indice(s, k, i);
}

/// `inserir_ordenado` vista como corte da sequência na posição `i`.
proof fn lema_inserir_em<V>(s: Seq<(Seq<char>, V)>, k: Seq<char>, v: V, i: int)
    requires
        0 <= i <= s.len(),
        forall|j: int| 0 <= j < i ==> lex_menor(#[trigger] s[j].0, k),
    ensures
        i < s.len() && s[i].0 == k ==> inserir_ordenado(s, k, v) == s.take(i) + seq![(k, v)] + s.skip(i + 1),
        i < s.len() && lex_menor(k, s[i].0) ==> inserir_ordenado(s, k, v) == s.take(i) + seq![(k, v)] + s.skip(i),
        i == s.len() ==> inserir_ordenado(s, k, v) == s + seq![(k, v)],
    decreases i,
{
    if i == 0 {
        lema_lex_irreflexivo(k);
        assert(s.take(0) + seq![(k, v)] + s.skip(1) =~= seq![(k, v)] + s.drop_first());
        assert(s.take(0) + seq![(k, v)] + s.skip(0) =~= seq![(k, v)] + s);
        if s.len() == 0 {
            assert(s + seq![(k, v)] =~= seq![(k, v)]);
        }
    } else {
        let t = s.drop_first();
        assert forall|j: int| 0 <= j < i - 1 implies lex_menor(#[trigger] t[j].0, k) by {
            assert(t[j] == s[j + 1]);
        }
        lema_inserir_em(t, k, v, i - 1);
        assert(s[0].0 != k) by {
            assert(lex_menor(s[0].0, k));
            lema_lex_irreflexivo(k);
        }
        assert(!lex_menor(k, s[0].0)) by {
            lema_lex_total(k, s[0].0);
        }
        assert(s.take(i) =~= seq![s[0]] + t.take(i - 1));
        if i < s.len() {
            assert(s.skip(i + 1) =~= t.skip(i));
        }
        assert(s.skip(i) =~= t.skip(i - 1));
        assert(s =~= seq![s[0]] + t);
        if i < s.len() {
            assert(seq![s[0]] + (t.take(i - 1) + seq![(k, v)] + t.skip(i)) =~= s.take(i) + seq![(k, v)] + s.skip(i + 1));
        }
        assert(seq![s[0]] + (t.take(i - 1) + seq![(k, v)] + t.skip(i - 1)) =~= s.take(i) + seq![(k, v)] + s.skip(i));
        assert(seq![s[0]] + (t + seq![(k, v)]) =~= s + seq![(k, v)]);
    }
}

/// Mapa de texto para `V` com chaves em ordem crescente.
pub struct Mapa<V> {
    entradas: Vec<(String, V)>,
}

impl<V> Mapa<V> {
    /// As entradas, com a chave tomada pelo seu texto, em ordem.
    pub closed spec fn entradas(self) -> Seq<(Seq<char>, V)> {
        self.entradas@.map_values(|e: (String, V)| (e.0@, e.1))
    }

    #[verifier::type_invariant]
    spec fn ordenado(self) -> bool {
        crescente(self.entradas())
    }

    pub open spec fn get_spec(self, k: Seq<char>) -> Option<V> {
        buscar(self.entradas(), k)
    }

    pub open spec fn chaves(self) -> Seq<Seq<char>> {
        chaves_de(self.entradas())
    }

    pub open spec fn contem(self, k: Seq<char>) -> bool {
        self.get_spec(k) is Some
    }

    pub fn novo() -> (r: Self)
        ensures
            r.entradas() == Seq::<(Seq<char>, V)>::empty(),
    {
        let r = Mapa { entradas: Vec::new() };
        assert(r.entradas() =~= Seq::<(Seq<char>, V)>::empty());
        r
    }

    pub fn len(&self) -> (r: usize)
        ensures
            r == self.entradas().len(),
    {
        self.entradas.len()
    }

    /// A `i`-ésima entrada, em ordem de chave.
    pub fn entrada(&self, i: usize) -> (r: (&String, &V))
        requires
            i < self.entradas().len(),
        ensures
            r.0@ == self.entradas()[i as int].0,
            *r.1 == self.entradas()[i as int].1,
    {
        let e = &self.entradas[i];
        (&e.0, &e.1)
    }

    /// Posição da chave, se presente.
    fn posicao(&self, k: &str) -> (r: Option<usize>)
        ensures
            match r {
                Some(i) => i < self.entradas().len() && self.entradas()[i as int].0 == k@
                    && forall|j: int| 0 <= j < i ==> self.entradas()[j].0 != k@,
                None => forall|j: int| 0 <= j < self.entradas().len() ==> self.entradas()[j].0 != k@,
            },
    {
        let mut i: usize = 0;
        while i < self.entradas.len()
            invariant
                0 <= i <= self.entradas().len(),
                self.entradas().len() == self.entradas@.len(),
                forall|j: int| 0 <= j < i ==> self.entradas()[j].0 != k@,
            decreases self.entradas@.len() - i,
        {
            if textos_iguais(self.entradas[i].0.as_str(), k) {
                return Some(i);
            }
            i = i + 1;
        }
        None
    }

    pub fn get(&self, k: &str) -> (r: Option<&V>)
        ensures
            match r {
                Some(v) => self.get_spec(k@) == Some(*v),
                None => self.get_spec(k@) is None,
            },
    {
        match self.posicao(k) {
            Some(i) => {
                proof {
                    lema_buscar_indice(self.entradas(), k@, i as int);
                }
                Some(&self.entradas[i].1)
            },
            None => {
                proof {
                    lema_buscar_ausente(self.entradas(), k@);
                }
                None
            },
        }
    }

    pub fn contains_key(&self, k: &str) -> (r: bool)
        ensures
            r == self.contem(k@),
    {
        self.get(k).is_some()
    }

    /// Insere ou substitui, mantendo a ordem.
    pub fn inserir(&mut self, k: String, v: V)
        ensures
            final(self).entradas() == inserir_ordenado(old(self).entradas(), k@, v),
    {
        proof {
            use_type_invariant(&*self);
        }
        let ghost s = self.entradas();
        let mut i: usize = 0;
        while i < self.entradas.len() && lex_menor_exec(self.entradas[i].0.as_str(), k.as_str())
            invariant
                0 <= i <= s.len(),
                s == self.entradas(),
                s.len() == self.entradas@.len(),
                crescente(s),
                forall|j: int| 0 <= j < i ==> lex_menor(#[trigger] s[j].0, k@),
            decreases s.len() - i,
        {
            i = i + 1;
        }
        proof {
            lema_inserir_em(s, k@, v, i as int);
        }
        let ghost kv = k@;
        if i < self.entradas.len() && textos_iguais(self.entradas[i].0.as_str(), k.as_str()) {
            let mut entradas = Vec::new();
            std::mem::swap(&mut entradas, &mut self.entradas);
            entradas.set(i, (k, v));
            proof {
                assert(entradas@.map_values(|e: (String, V)| (e.0@, e.1)) =~= s.take(i as int) + seq![(kv, v)] + s.skip(i + 1));
                lema_crescente_substituir(s, kv, v, i as int);
            }
            self.entradas = entradas;
        } else {
            proof {
                if i < s.len() {
                    lema_lex_total(s[i as int].0, kv);
                }
            }
            let mut entradas = Vec::new();
            std::mem::swap(&mut entradas, &mut self.entradas);
            entradas.insert(i, (k, v));
            proof {
                assert(entradas@.map_values(|e: (String, V)| (e.0@, e.1)) =~= s.take(i as int) + seq![(kv, v)] + s.skip(i as int));
                lema_crescente_inserir(s, kv, v, i as int);
            }
            self.entradas = entradas;
        }
    }
}

proof fn lema_crescente_substituir<V>(s: Seq<(Seq<char>, V)>, k: Seq<char>, v: V, i: int)
    requires
        crescente(s),
        0 <= i < s.len(),
        s[i].0 == k,
    ensures
        crescente(s.take(i) + seq![(k, v)] + s.skip(i + 1)),
{
    let t = s.take(i) + seq![(k, v)] + s.skip(i + 1);
    assert forall|a: int, b: int| 0 <= a < b < t.len() implies lex_menor(#[trigger] t[a].0, #[trigger] t[b].0) by {
        assert(t[a].0 == s[a].0);
        assert(t[b].0 == s[b].0);
    }
}

proof fn lema_crescente_inserir<V>(s: Seq<(Seq<char>, V)>, k: Seq<char>, v: V, i: int)
    requires
        crescente(s),
        0 <= i <= s.len(),
        forall|j: int| 0 <= j < i ==> lex_menor(#[trigger] s[j].0, k),
        i < s.len() ==> lex_menor(k, s[i].0),
    ensures
        crescente(s.take(i) + seq![(k, v)] + s.skip(i)),
{
    let t = s.take(i) + seq![(k, v)] + s.skip(i);
    assert forall|a: int, b: int| 0 <= a < b < t.len() implies lex_menor(#[trigger] t[a].0, #[trigger] t[b].0) by {
        if a < i && b < i {
            assert(t[a] == s[a] && t[b] == s[b]);
        } else if a < i && b == i {
            assert(t[a] == s[a]);
        } else if a < i {
            assert(t[a] == s[a] && t[b] == s[b - 1]);
            assert(lex_menor(s[a].0, k));
            if i < b - 1 {
                assert(lex_menor(s[i].0, s[b - 1].0));
                lema_lex_transitivo(k, s[i].0, s[b - 1].0);
            }
            lema_lex_transitivo(s[a].0, k, s[b - 1].0);
        } else if a == i {
            assert(t[b] == s[b - 1]);
            if i < b - 1 {
                assert(lex_menor(s[i].0, s[b - 1].0));
                lema_lex_transitivo(k, s[i].0, s[b - 1].0);
            }
        } else {
            assert(t[a] == s[a - 1] && t[b] == s[b - 1]);
        }
    }
}

} // verus!

verus! {

/// Aplica `f` ao valor de cada entrada.
pub open spec fn mapear<V, W>(s: Seq<(Seq<char>, V)>, f: spec_fn(V) -> W) -> Seq<(Seq<char>, W)> {
    s.map_values(|e: (Seq<char>, V)| (e.0, f(e.1)))
}

/// Inserir e depois transformar os valores dá o mesmo que transformar e
/// depois inserir o valor transformado.
pub proof fn lema_mapear_inserir<V, W>(s: Seq<(Seq<char>, V)>, k: Seq<char>, v: V, f: spec_fn(V) -> W)
    ensures
        mapear(inserir_ordenado(s, k, v), f) == inserir_ordenado(mapear(s, f), k, f(v)),
    decreases s.len(),
{
    let m = mapear(s, f);
    if s.len() == 0 {
        assert(mapear(inserir_ordenado(s, k, v), f) =~= seq![(k, f(v))]);
    } else {
        assert(m[0] == (s[0].0, f(s[0].1)));
        assert(mapear(s.drop_first(), f) =~= m.drop_first());
        if s[0].0 == k {
            assert(mapear(inserir_ordenado(s, k, v), f) =~= seq![(k, f(v))] + m.drop_first());
        } else if lex_menor(k, s[0].0) {
            assert(mapear(inserir_ordenado(s, k, v), f) =~= seq![(k, f(v))] + m);
        } else {
            lema_mapear_inserir(s.drop_first(), k, v, f);
            assert(mapear(inserir_ordenado(s, k, v), f) =~= seq![m[0]] + inserir_ordenado(m.drop_first(), k, f(v)));
        }
    }
}

/// Buscar depois de transformar os valores.
pub proof fn lema_mapear_buscar<V, W>(s: Seq<(Seq<char>, V)>, k: Seq<char>, f: spec_fn(V) -> W)
    ensures
        buscar(mapear(s, f), k) == match buscar(s, k) {
            Some(v) => Some(f(v)),
            None => None::<W>,
        },
    decreases s.len(),
{
    if s.len() > 0 {
        assert(mapear(s.drop_first(), f) =~= mapear(s, f).drop_first());
        lema_mapear_buscar(s.drop_first(), k, f);
    }
}

/// Insere uma a uma as entradas de `novas`, da primeira à última.
pub open spec fn inserir_todos<V>(s: Seq<(Seq<char>, V)>, novas: Seq<(Seq<char>, V)>) -> Seq<(Seq<char>, V)>
    decreases novas.len(),
{
    if novas.len() == 0 {
        s
    } else {
        inserir_todos(inserir_ordenado(s, novas[0].0, novas[0].1), novas.drop_first())
    }
}

pub proof fn lema_inserir_todos_push<V>(s: Seq<(Seq<char>, V)>, novas: Seq<(Seq<char>, V)>, k: Seq<char>, v: V)
    ensures
        inserir_todos(s, novas.push((k, v))) == inserir_ordenado(inserir_todos(s, novas), k, v),
    decreases novas.len(),
{
    if novas.len() == 0 {
        let p = novas.push((k, v));
        assert(p.drop_first() =~= Seq::<(Seq<char>, V)>::empty());
        assert(p[0] == (k, v));
        assert(inserir_todos(s, novas) == s);
        assert(inserir_todos(inserir_ordenado(s, k, v), p.drop_first()) == inserir_ordenado(s, k, v));
    } else {
        assert(novas.push((k, v)).drop_first() =~= novas.drop_first().push((k, v)));
        lema_inserir_todos_push(inserir_ordenado(s, novas[0].0, novas[0].1), novas.drop_first(), k, v);
    }
}

/// Ler o que se gravou: depois de inserir `v` em `k`, a busca por `k` dá
/// `v`, e a busca por qualquer outra chave dá o mesmo que antes.
pub proof fn lei_ler_o_que_se_gravou<V>(s: Seq<(Seq<char>, V)>, k: Seq<char>, v: V, outra: Seq<char>)
    ensures
        buscar(inserir_ordenado(s, k, v), k) == Some(v),
        outra != k ==> buscar(inserir_ordenado(s, k, v), outra) == buscar(s, outra),
    decreases s.len(),
{
    if s.len() == 0 {
        assert(seq![(k, v)].drop_first() =~= s);
    } else if s[0].0 == k {
        assert((seq![(k, v)] + s.drop_first()).drop_first() =~= s.drop_first());
    } else if lex_menor(k, s[0].0) {
        assert((seq![(k, v)] + s).drop_first() =~= s);
    } else {
        lei_ler_o_que_se_gravou(s.drop_first(), k, v, outra);
        assert((seq![s[0]] + inserir_ordenado(s.drop_first(), k, v)).drop_first() =~= inserir_ordenado(s.drop_first(), k, v));
    }
}

/// Depois de inserir uma a uma as entradas de `novas`, uma chave que não
/// aparece nelas dá o mesmo que antes; uma que aparece dá o valor da sua
/// última ocorrência.
pub proof fn lei_inserir_todos_buscar<V>(s: Seq<(Seq<char>, V)>, novas: Seq<(Seq<char>, V)>, k: Seq<char>)
    ensures
        (forall|j: int| 0 <= j < novas.len() ==> #[trigger] novas[j].0 != k) ==> buscar(inserir_todos(s, novas), k) == buscar(s, k),
        forall|i: int|
            0 <= i < novas.len() && #[trigger] novas[i].0 == k && (forall|j: int| i < j < novas.len() ==> #[trigger] novas[j].0 != k)
                ==> buscar(inserir_todos(s, novas), k) == Some(novas[i].1),
    decreases novas.len(),
{
    if novas.len() > 0 {
        let ini = novas.drop_last();
        let (ku, vu) = novas.last();
        assert(ini.push((ku, vu)) =~= novas);
        lema_inserir_todos_push(s, ini, ku, vu);
        lei_inserir_todos_buscar(s, ini, k);
        lei_ler_o_que_se_gravou(inserir_todos(s, ini), ku, vu, k);
        assert forall|i: int|
            0 <= i < novas.len() && #[trigger] novas[i].0 == k && (forall|j: int| i < j < novas.len() ==> #[trigger] novas[j].0 != k)
            implies buscar(inserir_todos(s, novas), k) == Some(novas[i].1) by {
            if i < novas.len() - 1 {
                assert(novas[novas.len() - 1].0 != k);
                assert(ini[i] == novas[i]);
                assert forall|j: int| i < j < ini.len() implies #[trigger] ini[j].0 != k by {
                    assert(ini[j] == novas[j]);
                }
            }
        }
        if forall|j: int| 0 <= j < novas.len() ==> #[trigger] novas[j].0 != k {
            assert(novas[novas.len() - 1].0 != k);
            assert forall|j: int| 0 <= j < ini.len() implies #[trigger] ini[j].0 != k by {
                assert(ini[j] == novas[j]);
            }
        }
    }
}

/// Inserir nunca tira uma chave: o que a busca achava continua achado.
pub proof fn lema_inserir_todos_mantem<V>(s: Seq<(Seq<char>, V)>, novas: Seq<(Seq<char>, V)>, k: Seq<char>)
    requires
        buscar(s, k) is Some,
    ensures
        buscar(inserir_todos(s, novas), k) is Some,
    decreases novas.len(),
{
    if novas.len() > 0 {
        let ini = novas.drop_last();
        let (ku, vu) = novas.last();
        assert(ini.push((ku, vu)) =~= novas);
        lema_inserir_todos_push(s, ini, ku, vu);
        lema_inserir_todos_mantem(s, ini, k);
        lei_ler_o_que_se_gravou(inserir_todos(s, ini), ku, vu, k);
    }
}

/// A busca acha a chave exatamente quando ela está entre as chaves.
pub proof fn lema_buscar_chaves<V>(s: Seq<(Seq<char>, V)>, k: Seq<char>)
    ensures
        (buscar(s, k) is Some) <==> chaves_de(s).contains(k),
    decreases s.len(),
{
    if s.len() > 0 {
        lema_buscar_chaves(s.drop_first(), k);
        let c = chaves_de(s);
        let r = chaves_de(s.drop_first());
        assert(c =~= seq![s[0].0] + r);
        if c.contains(k) && s[0].0 != k {
            let i = choose|i: int| 0 <= i < c.len() && c[i] == k;
            assert(r[i - 1] == k);
        }
        if r.contains(k) {
            let i = choose|i: int| 0 <= i < r.len() && r[i] == k;
            assert(c[i + 1] == k);
        }
        if s[0].0 == k {
            assert(c[0] == k);
        }
    }
}

/// Uma chave que aparece entre as entradas inseridas é achada depois.
pub proof fn lema_inserir_todos_presente<V>(s: Seq<(Seq<char>, V)>, novas: Seq<(Seq<char>, V)>, k: Seq<char>, i: int)
    requires
        0 <= i < novas.len(),
        novas[i].0 == k,
    ensures
        buscar(inserir_todos(s, novas), k) is Some,
    decreases novas.len(),
{
    let ini = novas.drop_last();
    let (ku, vu) = novas.last();
    assert(ini.push((ku, vu)) =~= novas);
    lema_inserir_todos_push(s, ini, ku, vu);
    lei_ler_o_que_se_gravou(inserir_todos(s, ini), ku, vu, k);
    if i < novas.len() - 1 && ku != k {
        assert(ini[i] == novas[i]);
        lema_inserir_todos_presente(s, ini, k, i);
    }
}

/// A visão de um mapa de textos: chave e valor como sequências.
pub open spec fn vista_texto() -> spec_fn(String) -> Seq<char> {
    |x: String| x@
}

pub open spec fn textos_de_mapa(m: Mapa<String>) -> Seq<(Seq<char>, Seq<char>)> {
    mapear(m.entradas(), vista_texto())
}

impl<V> Mapa<V> {
    /// As chaves, em ordem crescente.
    pub fn chaves_lista(&self) -> (r: Vec<String>)
        ensures
            textos(r@) == self.chaves(),
            crescente(self.entradas()),
    {
        proof {
            use_type_invariant(self);
        }
        let mut r: Vec<String> = Vec::new();
        let mut i: usize = 0;
        while i < self.entradas.len()
            invariant
                0 <= i <= self.entradas@.len(),
                self.entradas().len() == self.entradas@.len(),
                textos(r@) == self.chaves().take(i as int),
            decreases self.entradas@.len() - i,
        {
            let ghost antes = r@;
            r.push(self.entradas[i].0.clone());
            assert(self.chaves()[i as int] == self.entradas@[i as int].0@);
            i = i + 1;
            assert(textos(r@) =~= textos(antes).push(self.chaves()[i - 1]));
            assert(textos(r@) =~= self.chaves().take(i as int));
        }
        assert(self.chaves().take(i as int) =~= self.chaves());
        r
    }

    /// As entradas estão em ordem crescente de chave.
    pub fn confirmar_ordem(&self)
        ensures
            crescente(self.entradas()),
    {
        proof {
            use_type_invariant(self);
        }
    }
}


/// Inserir no fim de uma sequência cujas chaves são todas menores.
pub proof fn lema_inserir_maior<V>(p: Seq<(Seq<char>, V)>, k: Seq<char>, v: V)
    requires
        forall|j: int| 0 <= j < p.len() ==> lex_menor(#[trigger] p[j].0, k),
    ensures
        inserir_ordenado(p, k, v) == p.push((k, v)),
    decreases p.len(),
{
    if p.len() > 0 {
        assert(lex_menor(p[0].0, k));
        lema_lex_irreflexivo(k);
        lema_lex_total(p[0].0, k);
        let t = p.drop_first();
        assert forall|j: int| 0 <= j < t.len() implies lex_menor(#[trigger] t[j].0, k) by {
            assert(t[j] == p[j + 1]);
        }
        lema_inserir_maior(t, k, v);
        assert(seq![p[0]] + t.push((k, v)) =~= p.push((k, v)));
    } else {
        assert(seq![(k, v)] =~= p.push((k, v)));
    }
}

/// Inserir, em ordem, o resto de uma sequência crescente depois do seu
/// começo dá a própria sequência.
proof fn lema_inserir_resto<V>(s: Seq<(Seq<char>, V)>, i: int)
    requires
        crescente(s),
        0 <= i <= s.len(),
    ensures
        inserir_todos(s.take(i), s.skip(i)) == s,
    decreases s.len() - i,
{
    if i == s.len() {
        assert(s.take(i) =~= s);
        assert(s.skip(i) =~= Seq::<(Seq<char>, V)>::empty());
    } else {
        let p = s.take(i);
        assert forall|j: int| 0 <= j < p.len() implies lex_menor(#[trigger] p[j].0, s[i].0) by {
            assert(p[j] == s[j]);
        }
        lema_inserir_maior(p, s[i].0, s[i].1);
        assert(p.push((s[i].0, s[i].1)) =~= s.take(i + 1));
        assert(s.skip(i)[0] == s[i]);
        assert(s.skip(i).drop_first() =~= s.skip(i + 1));
        lema_inserir_resto(s, i + 1);
    }
}

/// Inserir, em ordem, as entradas de uma sequência crescente no vazio dá a
/// própria sequência.
pub proof fn lema_inserir_todos_crescente<V>(s: Seq<(Seq<char>, V)>)
    requires
        crescente(s),
    ensures
        inserir_todos(Seq::empty(), s) == s,
{
    assert(s.take(0) =~= Seq::<(Seq<char>, V)>::empty());
    assert(s.skip(0) =~= s);
    lema_inserir_resto(s, 0);
}

} // verus!
