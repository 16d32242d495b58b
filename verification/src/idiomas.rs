//! Catálogos de mensagens e resolução de textos por idioma, com recuo
//! para o idioma de reserva e interpolação de argumentos nomeados.

use vstd::prelude::*;

use crate::catalogos::{MSG_EN, MSG_PT, PLURAL_EN, PLURAL_PT, UI_EN, UI_PT};
use crate::mapa::{
    buscar, chaves_de, inserir_ordenado, inserir_todos, lema_inserir_todos_push,
    lema_mapear_buscar, lema_mapear_inserir, mapear, textos_de_mapa, vista_texto, Mapa,
};
use crate::texto::{
    decimal, decimal_exec, dividir_no_primeiro, lex_menor, minusculas, minusculas_exec, prefixo_ate, substituir,
    substituir_exec, textos, textos_iguais,
};

verus! {

/// Idioma usado como reserva quando falta chave ou catálogo.
pub const FALLBACK: &'static str = "en";

/// Formas de uma mensagem com número: singular (`one`) e demais (`other`).
pub struct FormasPlural {
    pub one: String,
    pub other: String,
}

/// Um catálogo: textos de interface, mensagens de diagnóstico e plurais.
pub struct Catalogo {
    pub ui: Mapa<String>,
    pub msg: Mapa<String>,
    pub plural: Mapa<FormasPlural>,
}

/// O conteúdo de um catálogo, com cada seção em ordem de chave.
pub struct CatalogoV {
    pub ui: Seq<(Seq<char>, Seq<char>)>,
    pub msg: Seq<(Seq<char>, Seq<char>)>,
    pub plural: Seq<(Seq<char>, (Seq<char>, Seq<char>))>,
}

pub open spec fn vista_plural() -> spec_fn(FormasPlural) -> (Seq<char>, Seq<char>) {
    |f: FormasPlural| (f.one@, f.other@)
}

impl View for Catalogo {
    type V = CatalogoV;

    open spec fn view(&self) -> CatalogoV {
        CatalogoV {
            ui: textos_de_mapa(self.ui),
            msg: textos_de_mapa(self.msg),
            plural: mapear(self.plural.entradas(), vista_plural()),
        }
    }
}

/// Seção de textos simples de um catálogo.
#[derive(Clone, Copy)]
pub enum Secao {
    Ui,
    Msg,
}

pub open spec fn vista_catalogo() -> spec_fn(Catalogo) -> CatalogoV {
    |c: Catalogo| c@
}

/// Conjunto de catálogos carregados, indexado pelo código do idioma.
pub struct Idiomas {
    catalogos: Mapa<Catalogo>,
}

impl View for Idiomas {
    type V = Seq<(Seq<char>, CatalogoV)>;

    closed spec fn view(&self) -> Seq<(Seq<char>, CatalogoV)> {
        mapear(self.catalogos.entradas(), vista_catalogo())
    }
}

pub open spec fn secao_v(c: CatalogoV, s: Secao) -> Seq<(Seq<char>, Seq<char>)> {
    match s {
        Secao::Ui => c.ui,
        Secao::Msg => c.msg,
    }
}

/// O texto da chave na seção do catálogo do idioma, se ambos existem.
pub open spec fn procurar(id: Seq<(Seq<char>, CatalogoV)>, codigo: Seq<char>, s: Secao, chave: Seq<char>) -> Option<Seq<char>> {
    match buscar(id, codigo) {
        Some(c) => buscar(secao_v(c, s), chave),
        None => None,
    }
}

/// Marca visível de chave que nenhum catálogo resolve.
pub open spec fn chave_ausente(chave: Seq<char>) -> Seq<char> {
    "⟨"@ + chave + "⟩"@
}

/// Texto de uma chave: o do idioma pedido; senão o do idioma de reserva;
/// senão a própria chave entre ⟨ ⟩.
pub open spec fn texto_v(id: Seq<(Seq<char>, CatalogoV)>, codigo: Seq<char>, s: Secao, chave: Seq<char>) -> Seq<char> {
    match procurar(id, codigo, s, chave) {
        Some(t) => t,
        None => match procurar(id, FALLBACK@, s, chave) {
            Some(t) => t,
            None => chave_ausente(chave),
        },
    }
}

/// `{nome}`.
pub open spec fn marcador(nome: Seq<char>) -> Seq<char> {
    seq!['{'] + nome + seq!['}']
}

/// Substitui `{nome}` pelo valor de cada argumento, na ordem dada.
/// Marcador sem argumento fica literal.
pub open spec fn interpolar(g: Seq<char>, args: Seq<(Seq<char>, Seq<char>)>) -> Seq<char>
    decreases args.len(),
{
    if args.len() == 0 {
        g
    } else {
        interpolar(substituir(g, marcador(args[0].0), args[0].1), args.drop_first())
    }
}

/// Argumentos nomeados como pares de textos.
pub open spec fn args_v(a: Seq<(&str, String)>) -> Seq<(Seq<char>, Seq<char>)> {
    a.map_values(|p: (&str, String)| (p.0@, p.1@))
}

pub open spec fn procurar_plural(id: Seq<(Seq<char>, CatalogoV)>, codigo: Seq<char>, chave: Seq<char>) -> Option<(Seq<char>, Seq<char>)> {
    match buscar(id, codigo) {
        Some(c) => buscar(c.plural, chave),
        None => None,
    }
}

/// A forma certa para `n` (1 → singular; resto → plural), com `{n}` trocado
/// pelo número.
pub open spec fn forma_para(f: (Seq<char>, Seq<char>), n: nat) -> Seq<char> {
    substituir(if n == 1 { f.0 } else { f.1 }, marcador("n"@), decimal(n))
}

pub open spec fn plural_v(id: Seq<(Seq<char>, CatalogoV)>, codigo: Seq<char>, chave: Seq<char>, n: nat) -> Seq<char> {
    match procurar_plural(id, codigo, chave) {
        Some(f) => forma_para(f, n),
        None => match procurar_plural(id, FALLBACK@, chave) {
            Some(f) => forma_para(f, n),
            None => "⟨"@ + chave + ":"@ + decimal(n) + "⟩"@,
        },
    }
}

pub open spec fn pares(a: Seq<(&str, &str)>) -> Seq<(Seq<char>, Seq<char>)> {
    a.map_values(|p: (&str, &str)| (p.0@, p.1@))
}

pub open spec fn trincas(a: Seq<(&str, &str, &str)>) -> Seq<(Seq<char>, (Seq<char>, Seq<char>))> {
    a.map_values(|p: (&str, &str, &str)| (p.0@, (p.1@, p.2@)))
}

/// O catálogo formado pelas tabelas dadas.
pub open spec fn catalogo_v(ui: Seq<(&str, &str)>, msg: Seq<(&str, &str)>, plural: Seq<(&str, &str, &str)>) -> CatalogoV {
    CatalogoV {
        ui: inserir_todos(Seq::empty(), pares(ui)),
        msg: inserir_todos(Seq::empty(), pares(msg)),
        plural: inserir_todos(Seq::empty(), trincas(plural)),
    }
}

/// Os catálogos embutidos: `en` e `pt`.
pub open spec fn embutidos() -> Seq<(Seq<char>, CatalogoV)> {
    inserir_todos(
        Seq::empty(),
        seq![("en"@, catalogo_v(UI_EN@, MSG_EN@, PLURAL_EN@)), ("pt"@, catalogo_v(UI_PT@, MSG_PT@, PLURAL_PT@))],
    )
}

pub open spec fn extras_v(e: Seq<(String, Catalogo)>) -> Seq<(Seq<char>, CatalogoV)> {
    e.map_values(|p: (String, Catalogo)| (p.0@, p.1@))
}

fn mapa_de_pares(p: &[(&'static str, &'static str)]) -> (m: Mapa<String>)
    ensures
        textos_de_mapa(m) == inserir_todos(Seq::empty(), pares(p@)),
{
    let mut m: Mapa<String> = Mapa::novo();
    let mut i: usize = 0;
    assert(pares(p@).take(0) =~= Seq::<(Seq<char>, Seq<char>)>::empty());
    while i < p.len()
        invariant
            0 <= i <= p@.len(),
            textos_de_mapa(m) == inserir_todos(Seq::empty(), pares(p@).take(i as int)),
        decreases p@.len() - i,
    {
        let (k, v) = p[i];
        let ks = String::from_str(k);
        let vs = String::from_str(v);
        proof {
            lema_mapear_inserir(m.entradas(), ks@, vs, vista_texto());
            lema_inserir_todos_push(Seq::empty(), pares(p@).take(i as int), k@, v@);
            assert(pares(p@).take(i + 1) =~= pares(p@).take(i as int).push((k@, v@)));
        }
        m.inserir(ks, vs);
        i = i + 1;
    }
    assert(pares(p@).take(p@.len() as int) =~= pares(p@));
    m
}

fn mapa_de_trincas(p: &[(&'static str, &'static str, &'static str)]) -> (m: Mapa<FormasPlural>)
    ensures
        mapear(m.entradas(), vista_plural()) == inserir_todos(Seq::empty(), trincas(p@)),
{
    let mut m: Mapa<FormasPlural> = Mapa::novo();
    let mut i: usize = 0;
    assert(trincas(p@).take(0) =~= Seq::<(Seq<char>, (Seq<char>, Seq<char>))>::empty());
    while i < p.len()
        invariant
            0 <= i <= p@.len(),
            mapear(m.entradas(), vista_plural()) == inserir_todos(Seq::empty(), trincas(p@).take(i as int)),
        decreases p@.len() - i,
    {
        let (k, a, b) = p[i];
        let ks = String::from_str(k);
        let f = FormasPlural { one: String::from_str(a), other: String::from_str(b) };
        proof {
            lema_mapear_inserir(m.entradas(), ks@, f, vista_plural());
            lema_inserir_todos_push(Seq::empty(), trincas(p@).take(i as int), k@, (a@, b@));
            assert(trincas(p@).take(i + 1) =~= trincas(p@).take(i as int).push((k@, (a@, b@))));
        }
        m.inserir(ks, f);
        i = i + 1;
    }
    assert(trincas(p@).take(p@.len() as int) =~= trincas(p@));
    m
}

fn catalogo_de(
    ui: &[(&'static str, &'static str)],
    msg: &[(&'static str, &'static str)],
    plural: &[(&'static str, &'static str, &'static str)],
) -> (c: Catalogo)
    ensures
        c@ == catalogo_v(ui@, msg@, plural@),
{
    Catalogo { ui: mapa_de_pares(ui), msg: mapa_de_pares(msg), plural: mapa_de_trincas(plural) }
}

impl Idiomas {
    /// Um conjunto sem catálogos.
    pub fn vazio() -> (r: Idiomas)
        ensures
            r@ == Seq::<(Seq<char>, CatalogoV)>::empty(),
    {
        let r = Idiomas { catalogos: Mapa::novo() };
        assert(r@ =~= Seq::<(Seq<char>, CatalogoV)>::empty());
        r
    }

    /// Acrescenta um catálogo; substitui o de mesmo código.
    pub fn inserir(&mut self, codigo: String, cat: Catalogo)
        ensures
            final(self)@ == inserir_ordenado(old(self)@, codigo@, cat@),
    {
        proof {
            lema_mapear_inserir(self.catalogos.entradas(), codigo@, cat, vista_catalogo());
        }
        self.catalogos.inserir(codigo, cat);
    }

    /// Os catálogos embutidos e, por cima deles e na ordem dada, os
    /// `extras` (lidos de um diretório); um extra substitui o catálogo de
    /// mesmo código.
    pub fn carregar(extras: Vec<(String, Catalogo)>) -> (r: Idiomas)
        ensures
            r@ == inserir_todos(embutidos(), extras_v(extras@)),
    {
        let mut r = Idiomas::vazio();
        let en = catalogo_de(&UI_EN, &MSG_EN, &PLURAL_EN);
        let pt = catalogo_de(&UI_PT, &MSG_PT, &PLURAL_PT);
        let ghost ven = en@;
        let ghost vpt = pt@;
        r.inserir(String::from_str("en"), en);
        r.inserir(String::from_str("pt"), pt);
        proof {
            let e0 = Seq::<(Seq<char>, CatalogoV)>::empty();
            let l = seq![("en"@, ven), ("pt"@, vpt)];
            assert(l.drop_first().drop_first() =~= e0);
            assert(l.drop_first()[0] == l[1]);
            assert(inserir_todos(inserir_ordenado(inserir_ordenado(e0, "en"@, ven), "pt"@, vpt), e0) == r@);
            assert(inserir_todos(inserir_ordenado(e0, "en"@, ven), l.drop_first()) == r@);
            assert(inserir_todos(e0, l) == r@);
            assert(embutidos() == r@);
        }
        let ghost base = r@;
        let ghost todos = extras_v(extras@);
        let mut resto = extras;
        let ghost mut i: int = 0;
        assert(todos.take(0) =~= Seq::<(Seq<char>, CatalogoV)>::empty());
        while resto.len() > 0
            invariant
                0 <= i <= todos.len(),
                extras_v(resto@) == todos.skip(i),
                r@ == inserir_todos(base, todos.take(i)),
            decreases resto@.len(),
        {
            let ghost antes = resto@;
            assert(extras_v(antes)[0] == todos.skip(i)[0]);
            let (codigo, cat) = resto.remove(0);
            proof {
                assert(antes[0] == (codigo, cat));
                assert(extras_v(antes)[0] == (codigo@, cat@));
                assert(extras_v(antes).len() == antes.len());
                assert(i < todos.len());
                assert(todos.skip(i)[0] == todos[i]);
                assert(todos[i] == (codigo@, cat@));
                lema_inserir_todos_push(base, todos.take(i), codigo@, cat@);
                assert(todos.take(i + 1) =~= todos.take(i).push((codigo@, cat@)));
            }
            r.inserir(codigo, cat);
            proof {
                i = i + 1;
            }
            assert(resto@ =~= antes.drop_first());
            assert(extras_v(antes).drop_first() =~= extras_v(resto@));
            assert(extras_v(resto@) =~= todos.skip(i));
        }
        assert(extras_v(resto@).len() == 0);
        assert(todos.take(i) =~= todos);
        r
    }
}

} // verus!

verus! {

fn marcador_exec(nome: &str) -> (r: String)
    ensures
        r@ == marcador(nome@),
{
    let mut r = String::from_str("{");
    r.append(nome);
    r.append("}");
    proof {
        reveal_strlit("{");
        reveal_strlit("}");
    }
    assert(r@ =~= marcador(nome@));
    r
}

/// Substitui `{nome}` pelos argumentos fornecidos, na ordem dada. Um
/// marcador sem argumento permanece literal — falha visível, não silenciosa.
pub fn interpolar_exec(gabarito: &str, args: &Vec<(&str, String)>) -> (r: String)
    ensures
        r@ == interpolar(gabarito@, args_v(args@)),
{
    let ghost a = args_v(args@);
    let mut s = String::from_str(gabarito);
    let mut i: usize = 0;
    assert(a.skip(0) =~= a);
    while i < args.len()
        invariant
            a == args_v(args@),
            0 <= i <= args@.len(),
            interpolar(gabarito@, a) == interpolar(s@, a.skip(i as int)),
        decreases args@.len() - i,
    {
        let (chave, valor) = &args[i];
        let m = marcador_exec(chave);
        assert(a[i as int] == (chave@, valor@));
        assert(a.skip(i as int).drop_first() =~= a.skip(i + 1));
        s = substituir_exec(s.as_str(), m.as_str(), valor.as_str());
        i = i + 1;
    }
    assert(a.skip(i as int) =~= Seq::<(Seq<char>, Seq<char>)>::empty());
    s
}

impl Idiomas {
    pub fn tem(&self, codigo: &str) -> (r: bool)
        ensures
            r == buscar(self@, codigo@) is Some,
    {
        proof {
            lema_mapear_buscar(self.catalogos.entradas(), codigo@, vista_catalogo());
        }
        self.catalogos.contains_key(codigo)
    }

    /// Os códigos dos idiomas carregados, em ordem crescente.
    pub fn disponiveis(&self) -> (r: Vec<String>)
        ensures
            textos(r@) == chaves_de(self@),
            forall|i: int, j: int| 0 <= i < j < r@.len() ==> lex_menor(#[trigger] r@[i]@, #[trigger] r@[j]@),
    {
        let r = self.catalogos.chaves_lista();
        assert(chaves_de(self@) =~= self.catalogos.chaves());
        proof {
            let e = self.catalogos.entradas();
            assert forall|i: int, j: int| 0 <= i < j < r@.len() implies lex_menor(#[trigger] r@[i]@, #[trigger] r@[j]@) by {
                assert(textos(r@)[i] == r@[i]@ && textos(r@)[j] == r@[j]@);
                assert(chaves_de(e)[i] == e[i].0 && chaves_de(e)[j] == e[j].0);
            }
        }
        r
    }

    /// O catálogo de um idioma, se carregado.
    pub fn catalogo(&self, codigo: &str) -> (r: Option<&Catalogo>)
        ensures
            match r {
                Some(c) => buscar(self@, codigo@) == Some(c@),
                None => buscar(self@, codigo@) is None,
            },
    {
        proof {
            lema_mapear_buscar(self.catalogos.entradas(), codigo@, vista_catalogo());
        }
        self.catalogos.get(codigo)
    }

    /// O idioma efetivo: o pedido, se há catálogo; senão o de reserva.
    pub fn efetivo(&self, codigo: &str) -> (r: String)
        ensures
            r@ == if buscar(self@, codigo@) is Some { codigo@ } else { FALLBACK@ },
    {
        if self.tem(codigo) {
            String::from_str(codigo)
        } else {
            String::from_str(FALLBACK)
        }
    }

    fn procurar_exec(&self, codigo: &str, secao: Secao, chave: &str) -> (r: Option<&String>)
        ensures
            match r {
                Some(t) => procurar(self@, codigo@, secao, chave@) == Some(t@),
                None => procurar(self@, codigo@, secao, chave@) is None,
            },
    {
        proof {
            lema_mapear_buscar(self.catalogos.entradas(), codigo@, vista_catalogo());
        }
        match self.catalogos.get(codigo) {
            Some(cat) => {
                let m = match secao {
                    Secao::Ui => &cat.ui,
                    Secao::Msg => &cat.msg,
                };
                proof {
                    lema_mapear_buscar(m.entradas(), chave@, vista_texto());
                }
                m.get(chave)
            },
            None => None,
        }
    }

    fn texto(&self, codigo: &str, secao: Secao, chave: &str) -> (r: String)
        ensures
            r@ == texto_v(self@, codigo@, secao, chave@),
    {
        if let Some(t) = self.procurar_exec(codigo, secao, chave) {
            return t.clone();
        }
        if let Some(t) = self.procurar_exec(FALLBACK, secao, chave) {
            return t.clone();
        }
        let mut r = String::from_str("⟨");
        r.append(chave);
        r.append("⟩");
        r
    }

    /// Texto de interface com argumentos.
    pub fn ui(&self, codigo: &str, chave: &str, args: &Vec<(&str, String)>) -> (r: String)
        ensures
            r@ == interpolar(texto_v(self@, codigo@, Secao::Ui, chave@), args_v(args@)),
    {
        let t = self.texto(codigo, Secao::Ui, chave);
        interpolar_exec(t.as_str(), args)
    }

    /// O aviso de um catálogo ignorado (ilegível ou inválido). Sai antes de
    /// o idioma da sessão estar decidido, por isso no idioma de reserva.
    pub fn aviso_de_catalogo(&self, caminho: &str, erro: &str) -> (r: String)
        ensures
            r@ == interpolar(
                texto_v(self@, FALLBACK@, Secao::Ui, "catalogo-invalido"@),
                seq![("caminho"@, caminho@), ("erro"@, erro@)],
            ),
    {
        let args: Vec<(&str, String)> = vec![("caminho", String::from_str(caminho)), ("erro", String::from_str(erro))];
        assert(args_v(args@) =~= seq![("caminho"@, caminho@), ("erro"@, erro@)]);
        self.ui(FALLBACK, "catalogo-invalido", &args)
    }

    /// Atalho para rótulos sem argumentos.
    pub fn rot(&self, codigo: &str, chave: &str) -> (r: String)
        ensures
            r@ == texto_v(self@, codigo@, Secao::Ui, chave@),
    {
        self.texto(codigo, Secao::Ui, chave)
    }

    /// Mensagem de diagnóstico com argumentos.
    pub fn msg(&self, codigo: &str, chave: &str, args: &Vec<(&str, String)>) -> (r: String)
        ensures
            r@ == interpolar(texto_v(self@, codigo@, Secao::Msg, chave@), args_v(args@)),
    {
        let t = self.texto(codigo, Secao::Msg, chave);
        interpolar_exec(t.as_str(), args)
    }

    fn procurar_plural_exec(&self, codigo: &str, chave: &str) -> (r: Option<&FormasPlural>)
        ensures
            match r {
                Some(f) => procurar_plural(self@, codigo@, chave@) == Some((f.one@, f.other@)),
                None => procurar_plural(self@, codigo@, chave@) is None,
            },
    {
        proof {
            lema_mapear_buscar(self.catalogos.entradas(), codigo@, vista_catalogo());
        }
        match self.catalogos.get(codigo) {
            Some(cat) => {
                proof {
                    lema_mapear_buscar(cat.plural.entradas(), chave@, vista_plural());
                }
                cat.plural.get(chave)
            },
            None => None,
        }
    }

    fn forma_exec(f: &FormasPlural, n: usize) -> (r: String)
        ensures
            r@ == forma_para((f.one@, f.other@), n as nat),
    {
        let gabarito = if n == 1 { &f.one } else { &f.other };
        let m = marcador_exec("n");
        let d = decimal_exec(n);
        substituir_exec(gabarito.as_str(), m.as_str(), d.as_str())
    }

    /// Seleção de forma plural: 1 → `one`, resto → `other`.
    pub fn plural(&self, codigo: &str, chave: &str, n: usize) -> (r: String)
        ensures
            r@ == plural_v(self@, codigo@, chave@, n as nat),
    {
        if let Some(f) = self.procurar_plural_exec(codigo, chave) {
            return Self::forma_exec(f, n);
        }
        if let Some(f) = self.procurar_plural_exec(FALLBACK, chave) {
            return Self::forma_exec(f, n);
        }
        let mut r = String::from_str("⟨");
        r.append(chave);
        r.append(":");
        let d = decimal_exec(n);
        r.append(d.as_str());
        r.append("⟩");
        r
    }
}

/// A base de um valor de locale: o trecho antes do primeiro `_`, `.` ou
/// `-`, em minúsculas (`pt_BR.UTF-8` dá `pt`).
pub open spec fn base_do_locale(v: Seq<char>) -> Seq<char> {
    minusculas(prefixo_ate(v, seq!['_', '.', '-']))
}

/// Uma base que nomeia um idioma: não vazia, nem `c`, nem `posix`.
pub open spec fn base_util(b: Seq<char>) -> bool {
    b.len() > 0 && b != "c"@ && b != "posix"@
}

/// O idioma do ambiente, dados os valores das variáveis de locale em
/// ordem de precedência (`LC_ALL`, `LC_MESSAGES`, `LANG`): a base do
/// primeiro valor definido cuja base nomeia um idioma.
pub open spec fn idioma_de_valores_v(vs: Seq<Option<Seq<char>>>) -> Option<Seq<char>>
    decreases vs.len(),
{
    if vs.len() == 0 {
        None
    } else {
        match vs[0] {
            Some(v) => if base_util(base_do_locale(v)) {
                Some(base_do_locale(v))
            } else {
                idioma_de_valores_v(vs.drop_first())
            },
            None => idioma_de_valores_v(vs.drop_first()),
        }
    }
}

pub open spec fn valores_v(vs: Seq<Option<String>>) -> Seq<Option<Seq<char>>> {
    vs.map_values(|o: Option<String>| crate::diagnostico::opt_v(o))
}

/// O idioma do ambiente a partir dos valores lidos das variáveis de
/// locale, na ordem de precedência.
pub fn idioma_de_valores(valores: &Vec<Option<String>>) -> (r: Option<String>)
    ensures
        crate::diagnostico::opt_v(r) == idioma_de_valores_v(valores_v(valores@)),
{
    let ghost vs = valores_v(valores@);
    let mut seps: Vec<char> = Vec::new();
    seps.push('_');
    seps.push('.');
    seps.push('-');
    assert(seps@ =~= seq!['_', '.', '-']);
    let mut i: usize = 0;
    assert(vs.skip(0) =~= vs);
    while i < valores.len()
        invariant
            vs == valores_v(valores@),
            vs.len() == valores@.len(),
            seps@ == seq!['_', '.', '-'],
            0 <= i <= vs.len(),
            idioma_de_valores_v(vs) == idioma_de_valores_v(vs.skip(i as int)),
        decreases vs.len() - i,
    {
        assert(vs.skip(i as int).drop_first() =~= vs.skip(i + 1));
        assert(vs.skip(i as int)[0] == crate::diagnostico::opt_v(valores@[i as int]));
        if let Some(v) = &valores[i] {
            let (antes, _) = dividir_no_primeiro(v.as_str(), &seps);
            let base = minusculas_exec(antes.as_str());
            proof {
                reveal_strlit("");
            }
            assert(""@ =~= Seq::<char>::empty());
            assert(base@ == base_do_locale(v@));
            if !textos_iguais(base.as_str(), "") && !textos_iguais(base.as_str(), "c") && !textos_iguais(base.as_str(), "posix") {
                assert(base@.len() > 0) by {
                    if base@.len() == 0 {
                        assert(base@ =~= ""@);
                    }
                }
                return Some(base);
            }
        }
        i = i + 1;
    }
    None
}

/// Idioma sem catálogo cai no de reserva: seus textos e plurais são os
/// do idioma de reserva.
pub proof fn lei_idioma_sem_catalogo_usa_reserva(
    id: Seq<(Seq<char>, CatalogoV)>,
    codigo: Seq<char>,
    s: Secao,
    chave: Seq<char>,
    n: nat,
)
    requires
        buscar(id, codigo) is None,
    ensures
        texto_v(id, codigo, s, chave) == texto_v(id, FALLBACK@, s, chave),
        plural_v(id, codigo, chave, n) == plural_v(id, FALLBACK@, chave, n),
{
}

/// Os catálogos embutidos (`en` e `pt`) estão sempre carregados, quaisquer
/// que sejam os catálogos vindos do diretório.
pub proof fn lei_embutidos_sempre_carregados(extras: Seq<(Seq<char>, CatalogoV)>)
    ensures
        buscar(inserir_todos(embutidos(), extras), "en"@) is Some,
        buscar(inserir_todos(embutidos(), extras), "pt"@) is Some,
{
    reveal_strlit("en");
    reveal_strlit("pt");
    let l = seq![("en"@, catalogo_v(UI_EN@, MSG_EN@, PLURAL_EN@)), ("pt"@, catalogo_v(UI_PT@, MSG_PT@, PLURAL_PT@))];
    assert(l[0].0 == "en"@ && l[1].0 == "pt"@);
    assert("en"@ != "pt"@) by {
        assert("en"@[0] != "pt"@[0]);
    }
    crate::mapa::lei_inserir_todos_buscar(Seq::empty(), l, "en"@);
    crate::mapa::lei_inserir_todos_buscar(Seq::empty(), l, "pt"@);
    crate::mapa::lema_inserir_todos_mantem(embutidos(), extras, "en"@);
    crate::mapa::lema_inserir_todos_mantem(embutidos(), extras, "pt"@);
}

/// Um catálogo vindo do diretório prevalece sobre o embutido de mesmo
/// código; entre vários de mesmo código, vale o último.
pub proof fn lei_catalogo_extra_prevalece(extras: Seq<(Seq<char>, CatalogoV)>, i: int)
    requires
        0 <= i < extras.len(),
        forall|j: int| i < j < extras.len() ==> #[trigger] extras[j].0 != extras[i].0,
    ensures
        buscar(inserir_todos(embutidos(), extras), extras[i].0) == Some(extras[i].1),
{
    crate::mapa::lei_inserir_todos_buscar(embutidos(), extras, extras[i].0);
}

/// O idioma efetivo sempre tem catálogo, desde que o de reserva tenha.
pub proof fn lei_efetivo_tem_catalogo(id: Seq<(Seq<char>, CatalogoV)>, codigo: Seq<char>)
    requires
        buscar(id, FALLBACK@) is Some,
    ensures
        buscar(id, if buscar(id, codigo) is Some { codigo } else { FALLBACK@ }) is Some,
{
}

/// Um gabarito em que não aparece nenhum dos marcadores dos argumentos
/// dados sai como está: a interpolação só mexe nos marcadores fornecidos.
pub proof fn lei_gabarito_sem_marcadores_fica_igual(g: Seq<char>, args: Seq<(Seq<char>, Seq<char>)>)
    requires
        forall|j: int, i: int| 0 <= j < args.len() ==> !#[trigger] crate::texto::ocorre_em(g, marcador(args[j].0), i),
    ensures
        interpolar(g, args) == g,
    decreases args.len(),
{
    if args.len() > 0 {
        assert forall|i: int| !#[trigger] crate::texto::ocorre_em(g, marcador(args[0].0), i) by {
            assert(!crate::texto::ocorre_em(g, marcador(args[0].0), i));
        }
        crate::texto::lema_substituir_sem_ocorrencia(g, marcador(args[0].0), args[0].1);
        let resto = args.drop_first();
        assert forall|j: int, i: int| 0 <= j < resto.len() implies !#[trigger] crate::texto::ocorre_em(g, marcador(resto[j].0), i) by {
            assert(resto[j] == args[j + 1]);
            assert(!crate::texto::ocorre_em(g, marcador(args[j + 1].0), i));
        }
        lei_gabarito_sem_marcadores_fica_igual(g, resto);
    }
}

/// Um idioma tem catálogo exatamente quando está entre os disponíveis.
pub proof fn lei_tem_sse_disponivel(id: Seq<(Seq<char>, CatalogoV)>, codigo: Seq<char>)
    ensures
        (buscar(id, codigo) is Some) <==> chaves_de(id).contains(codigo),
{
    crate::mapa::lema_buscar_chaves(id, codigo);
}

/// Os dois catálogos embutidos, como ficam carregados.
pub proof fn lema_catalogos_embutidos()
    ensures
        buscar(embutidos(), "en"@) == Some(catalogo_v(UI_EN@, MSG_EN@, PLURAL_EN@)),
        buscar(embutidos(), "pt"@) == Some(catalogo_v(UI_PT@, MSG_PT@, PLURAL_PT@)),
{
    reveal_strlit("en");
    reveal_strlit("pt");
    let l = seq![("en"@, catalogo_v(UI_EN@, MSG_EN@, PLURAL_EN@)), ("pt"@, catalogo_v(UI_PT@, MSG_PT@, PLURAL_PT@))];
    assert("en"@ != "pt"@) by {
        assert("en"@[0] != "pt"@[0]);
    }
    assert(l[0].0 == "en"@ && l[1].0 == "pt"@ && l.len() == 2);
    crate::mapa::lei_inserir_todos_buscar(Seq::empty(), l, "en"@);
    crate::mapa::lei_inserir_todos_buscar(Seq::empty(), l, "pt"@);
    assert(buscar(embutidos(), "pt"@) == Some(l[1].1));
    assert(buscar(embutidos(), "en"@) == Some(l[0].1));
}

/// Toda espécie de mensagem tem texto na seção de mensagens de cada
/// catálogo embutido (e nunca sai como chave ausente).
pub proof fn lei_toda_mensagem_tem_texto_embutido(m: crate::diagnostico::MsgV, c: Seq<char>)
    requires
        c == "en"@ || c == "pt"@,
    ensures
        procurar(embutidos(), c, Secao::Msg, crate::diagnostico::chave_msg(m)) is Some,
{
    lema_catalogos_embutidos();
    crate::diagnostico::lema_chave_da_especie(m);
    let n = crate::diagnostico::especie(m);
    let k = crate::diagnostico::chave_de_especie(n);
    assert(pares(MSG_EN@)[n as int].0 == k && pares(MSG_PT@)[n as int].0 == k) by {
        assert(n == 0 || n == 1 || n == 2 || n == 3 || n == 4 || n == 5 || n == 6 || n == 7 || n == 8 || n == 9 || n == 10
            || n == 11 || n == 12 || n == 13 || n == 14 || n == 15 || n == 16 || n == 17 || n == 18 || n == 19 || n == 20
            || n == 21 || n == 22 || n == 23 || n == 24 || n == 25);
    }
    crate::mapa::lema_inserir_todos_presente(Seq::empty(), pares(MSG_EN@), k, n as int);
    crate::mapa::lema_inserir_todos_presente(Seq::empty(), pares(MSG_PT@), k, n as int);
}

} // verus!





verus! {

/// Sem `{` e sem `⟨`: nem marcador por preencher, nem chave ausente.
pub open spec fn limpo(s: Seq<char>) -> bool {
    !s.contains('{') && !s.contains('⟨')
}

/// Nome de argumento que pode estar num marcador: sem chaves.
pub open spec fn bom_nome(n: Seq<char>) -> bool {
    !n.contains('{') && !n.contains('}')
}

/// Um pedaço de gabarito: texto corrido ou marcador `{nome}`.
pub enum Peca {
    Texto(Seq<char>),
    Marca(Seq<char>),
}

pub open spec fn texto_da_peca(p: Peca) -> Seq<char> {
    match p {
        Peca::Texto(t) => t,
        Peca::Marca(n) => marcador(n),
    }
}

/// O gabarito formado pelos pedaços, em ordem.
pub open spec fn juntar_pecas(ps: Seq<Peca>) -> Seq<char>
    decreases ps.len(),
{
    if ps.len() == 0 {
        Seq::empty()
    } else {
        texto_da_peca(ps[0]) + juntar_pecas(ps.drop_first())
    }
}

/// Textos limpos e marcadores com nomes bons.
pub open spec fn pecas_boas(ps: Seq<Peca>) -> bool {
    forall|i: int|
        0 <= i < ps.len() ==> match #[trigger] ps[i] {
            Peca::Texto(t) => limpo(t),
            Peca::Marca(n) => bom_nome(n),
        }
}

/// Todo marcador dos pedaços tem argumento.
pub open spec fn marcas_cobertas(ps: Seq<Peca>, args: Seq<(Seq<char>, Seq<char>)>) -> bool {
    forall|i: int|
        0 <= i < ps.len() ==> match #[trigger] ps[i] {
            Peca::Marca(n) => exists|j: int| 0 <= j < args.len() && #[trigger] args[j].0 == n,
            Peca::Texto(_) => true,
        }
}

pub open spec fn trocar_marca(ps: Seq<Peca>, nome: Seq<char>, valor: Seq<char>) -> Seq<Peca> {
    ps.map_values(
        |p: Peca|
            match p {
                Peca::Marca(n) => if n == nome {
                    Peca::Texto(valor)
                } else {
                    p
                },
                Peca::Texto(_) => p,
            },
    )
}

proof fn lema_sem_chave_antes(t: Seq<char>, x: Seq<char>, p: Seq<char>, r: Seq<char>)
    requires
        !t.contains('{'),
        p.len() > 0,
        p[0] == '{',
    ensures
        substituir(t + x, p, r) == t + substituir(x, p, r),
    decreases t.len(),
{
    if t.len() == 0 {
        assert(t + x =~= x);
        assert(t + substituir(x, p, r) =~= substituir(x, p, r));
    } else {
        let s = t + x;
        assert(s[0] == t[0]);
        if p.len() <= s.len() && s.take(p.len() as int) == p {
            assert(s.take(p.len() as int)[0] == s[0]);
            assert(t.contains(t[0]));
        }
        assert(!t.drop_first().contains('{')) by {
            if t.drop_first().contains('{') {
                let k = choose|k: int| 0 <= k < t.drop_first().len() && t.drop_first()[k] == '{';
                assert(t[k + 1] == '{');
            }
        }
        assert(s.drop_first() =~= t.drop_first() + x);
        lema_sem_chave_antes(t.drop_first(), x, p, r);
        assert(seq![s[0]] + (t.drop_first() + substituir(x, p, r)) =~= t + substituir(x, p, r));
    }
}

proof fn lema_marca_igual(n: Seq<char>, x: Seq<char>, r: Seq<char>)
    ensures
        substituir(marcador(n) + x, marcador(n), r) == r + substituir(x, marcador(n), r),
{
    let s = marcador(n) + x;
    let p = marcador(n);
    assert(s.take(p.len() as int) =~= p);
    assert(s.skip(p.len() as int) =~= x);
}

proof fn lema_marca_outra(n: Seq<char>, m: Seq<char>, x: Seq<char>, r: Seq<char>)
    requires
        bom_nome(n),
        bom_nome(m),
        n != m,
    ensures
        substituir(marcador(n) + x, marcador(m), r) == marcador(n) + substituir(x, marcador(m), r),
{
    let s = marcador(n) + x;
    let p = marcador(m);
    let a = n.len() as int;
    let b = m.len() as int;
    if p.len() <= s.len() && s.take(p.len() as int) == p {
        let q = s.take(p.len() as int);
        if b < a {
            assert(q[b + 1] == p[b + 1]);
            assert(p[b + 1] == '}');
            assert(s[b + 1] == n[b]);
            assert(n.contains(n[b]));
        } else if b > a {
            assert(q[a + 1] == p[a + 1]);
            assert(s[a + 1] == '}');
            assert(p[a + 1] == m[a]);
            assert(m.contains(m[a]));
        } else {
            assert(n =~= m) by {
                assert forall|k: int| 0 <= k < a implies n[k] == m[k] by {
                    assert(q[k + 1] == p[k + 1]);
                    assert(s[k + 1] == n[k]);
                    assert(p[k + 1] == m[k]);
                }
            }
        }
    }
    let t = n.push('}');
    assert(!t.contains('{')) by {
        if t.contains('{') {
            let k = choose|k: int| 0 <= k < t.len() && t[k] == '{';
            if k < a {
                assert(n[k] == '{');
                assert(n.contains('{'));
            }
        }
    }
    assert(s.drop_first() =~= t + x);
    assert(p[0] == '{');
    lema_sem_chave_antes(t, x, p, r);
    assert(seq![s[0]] + (t + substituir(x, p, r)) =~= marcador(n) + substituir(x, p, r));
}

proof fn lema_trocar_uma(ps: Seq<Peca>, nome: Seq<char>, valor: Seq<char>)
    requires
        forall|i: int| 0 <= i < ps.len() ==> match #[trigger] ps[i] {
            Peca::Texto(t) => !t.contains('{'),
            Peca::Marca(n) => bom_nome(n),
        },
        bom_nome(nome),
    ensures
        substituir(juntar_pecas(ps), marcador(nome), valor) == juntar_pecas(trocar_marca(ps, nome, valor)),
    decreases ps.len(),
{
    let p = marcador(nome);
    if ps.len() == 0 {
        assert(trocar_marca(ps, nome, valor) =~= ps);
    } else {
        let resto = ps.drop_first();
        assert forall|i: int| 0 <= i < resto.len() implies match #[trigger] resto[i] {
            Peca::Texto(t) => !t.contains('{'),
            Peca::Marca(n) => bom_nome(n),
        } by {
            assert(resto[i] == ps[i + 1]);
        }
        lema_trocar_uma(resto, nome, valor);
        let tr = trocar_marca(ps, nome, valor);
        assert(tr.drop_first() =~= trocar_marca(resto, nome, valor));
        assert(p[0] == '{');
        match ps[0] {
            Peca::Texto(t) => {
                lema_sem_chave_antes(t, juntar_pecas(resto), p, valor);
            },
            Peca::Marca(n) => {
                if n == nome {
                    lema_marca_igual(n, juntar_pecas(resto), valor);
                } else {
                    lema_marca_outra(n, nome, juntar_pecas(resto), valor);
                }
            },
        }
    }
}

proof fn lema_sem_marcas_limpo(ps: Seq<Peca>)
    requires
        forall|i: int| 0 <= i < ps.len() ==> match #[trigger] ps[i] {
            Peca::Texto(t) => limpo(t),
            Peca::Marca(n) => false,
        },
    ensures
        limpo(juntar_pecas(ps)),
    decreases ps.len(),
{
    if ps.len() > 0 {
        let resto = ps.drop_first();
        assert forall|i: int| 0 <= i < resto.len() implies match #[trigger] resto[i] {
            Peca::Texto(t) => limpo(t),
            Peca::Marca(n) => false,
        } by {
            assert(resto[i] == ps[i + 1]);
        }
        lema_sem_marcas_limpo(resto);
        let t = texto_da_peca(ps[0]);
        let j = juntar_pecas(resto);
        assert(limpo(t));
        assert forall|c: char| (c == '{' || c == '⟨') implies !(t + j).contains(c) by {
            if (t + j).contains(c) {
                let k = choose|k: int| 0 <= k < (t + j).len() && (t + j)[k] == c;
                if k < t.len() {
                    assert(t[k] == c);
                    assert(t.contains(c));
                } else {
                    assert(j[k - t.len()] == c);
                    assert(j.contains(c));
                }
            }
        }
    }
}

/// Interpolar um gabarito de pedaços bons, com argumento para cada
/// marcador, nomes bons e valores limpos, dá texto limpo.
pub proof fn lema_interpolar_limpo(ps: Seq<Peca>, args: Seq<(Seq<char>, Seq<char>)>)
    requires
        pecas_boas(ps),
        marcas_cobertas(ps, args),
        forall|j: int| 0 <= j < args.len() ==> bom_nome(#[trigger] args[j].0) && limpo(args[j].1),
    ensures
        limpo(interpolar(juntar_pecas(ps), args)),
    decreases args.len(),
{
    if args.len() == 0 {
        assert forall|i: int| 0 <= i < ps.len() implies match #[trigger] ps[i] {
            Peca::Texto(t) => limpo(t),
            Peca::Marca(n) => false,
        } by {
            if let Peca::Marca(n) = ps[i] {
                assert(exists|j: int| 0 <= j < args.len() && #[trigger] args[j].0 == n);
            }
        }
        lema_sem_marcas_limpo(ps);
    } else {
        let (nome, valor) = args[0];
        assert(bom_nome(args[0].0) && limpo(args[0].1));
        lema_trocar_uma(ps, nome, valor);
        let tr = trocar_marca(ps, nome, valor);
        let resto = args.drop_first();
        assert(pecas_boas(tr)) by {
            assert forall|i: int| 0 <= i < tr.len() implies match #[trigger] tr[i] {
                Peca::Texto(t) => limpo(t),
                Peca::Marca(n) => bom_nome(n),
            } by {
                assert(match ps[i] {
                    Peca::Texto(t) => limpo(t),
                    Peca::Marca(n) => bom_nome(n),
                });
            }
        }
        assert(marcas_cobertas(tr, resto)) by {
            assert forall|i: int| 0 <= i < tr.len() implies match #[trigger] tr[i] {
                Peca::Marca(n) => exists|j: int| 0 <= j < resto.len() && #[trigger] resto[j].0 == n,
                Peca::Texto(_) => true,
            } by {
                assert(match ps[i] {
                    Peca::Marca(n) => exists|j: int| 0 <= j < args.len() && #[trigger] args[j].0 == n,
                    Peca::Texto(_) => true,
                });
                if let Peca::Marca(n) = tr[i] {
                    assert(ps[i] == Peca::Marca(n) && n != nome);
                    let j = choose|j: int| 0 <= j < args.len() && #[trigger] args[j].0 == n;
                    assert(j != 0);
                    assert(resto[j - 1] == args[j]);
                }
            }
        }
        assert forall|j: int| 0 <= j < resto.len() implies bom_nome(#[trigger] resto[j].0) && limpo(resto[j].1) by {
            assert(resto[j] == args[j + 1]);
        }
        lema_interpolar_limpo(tr, resto);
    }
}

} // verus!
