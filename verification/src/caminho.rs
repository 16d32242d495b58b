//! Nomes de arquivo dentro de um caminho: o nome final e o nome sem a
//! extensão, como o `Path` da biblioteca padrão os entende num sistema
//! Unix (componentes separados por `/`, `.` ignorado, `..` sem nome).

use vstd::prelude::*;

use crate::diagnostico::opt_v;
use crate::texto::{caracteres, minusculas, minusculas_exec, texto_de, textos_iguais};

verus! {

/// Os caracteres depois da última ocorrência de `c` (o texto todo, se `c`
/// não ocorre).
pub open spec fn apos_ultimo(s: Seq<char>, c: char) -> Seq<char>
    decreases s.len(),
{
    if s.len() == 0 {
        Seq::empty()
    } else if s.last() == c {
        Seq::empty()
    } else {
        apos_ultimo(s.drop_last(), c).push(s.last())
    }
}

/// O nome final de um caminho: o último componente que não é vazio nem
/// `.`; nenhum se não há tal componente ou se ele é `..`.
pub open spec fn nome_arquivo(p: Seq<char>) -> Option<Seq<char>>
    decreases p.len(),
{
    let seg = apos_ultimo(p, '/');
    if seg.len() == 0 || seg == seq!['.'] {
        if seg.len() < p.len() {
            nome_arquivo(p.take(p.len() - seg.len() - 1))
        } else {
            None
        }
    } else if seg == seq!['.', '.'] {
        None
    } else {
        Some(seg)
    }
}

/// O nome sem a extensão: o que vem antes do último `.`, a não ser que
/// não haja `.` ou que antes dele não haja nada (como em `.config`).
pub open spec fn haste(n: Seq<char>) -> Seq<char> {
    let depois = apos_ultimo(n, '.');
    if depois.len() >= n.len() {
        n
    } else {
        let antes = n.take(n.len() - depois.len() - 1);
        if antes.len() == 0 {
            n
        } else {
            antes
        }
    }
}

/// A versão que um caminho de schema declara: o nome do arquivo sem a
/// extensão, ou o texto vazio se o caminho não tem nome de arquivo.
pub open spec fn versao_v(p: Seq<char>) -> Seq<char> {
    match nome_arquivo(p) {
        Some(n) => haste(n),
        None => Seq::empty(),
    }
}

/// Onde começa o trecho de `v[..fim]` depois da última ocorrência de `c`.
fn inicio_apos_ultimo(v: &Vec<char>, fim: usize, c: char) -> (r: usize)
    requires
        fim <= v.len(),
    ensures
        r <= fim,
        apos_ultimo(v@.take(fim as int), c) == v@.subrange(r as int, fim as int),
{
    let mut ini = fim;
    while ini > 0 && v[ini - 1] != c
        invariant
            ini <= fim <= v.len(),
            apos_ultimo(v@.take(fim as int), c) == apos_ultimo(v@.take(ini as int), c) + v@.subrange(ini as int, fim as int),
        decreases ini,
    {
        let ghost t = v@.take(ini as int);
        assert(t.drop_last() =~= v@.take(ini - 1));
        assert(v@.subrange(ini - 1, fim as int) =~= seq![v@[ini - 1]] + v@.subrange(ini as int, fim as int));
        assert(apos_ultimo(t, c) == apos_ultimo(v@.take(ini - 1), c).push(v@[ini - 1]));
        assert(apos_ultimo(v@.take(ini - 1), c).push(v@[ini - 1]) + v@.subrange(ini as int, fim as int)
            =~= apos_ultimo(v@.take(ini - 1), c) + v@.subrange(ini - 1, fim as int));
        ini = ini - 1;
    }
    assert(apos_ultimo(v@.take(ini as int), c) =~= Seq::<char>::empty());
    assert(Seq::<char>::empty() + v@.subrange(ini as int, fim as int) =~= v@.subrange(ini as int, fim as int));
    ini
}

fn copia_trecho(v: &Vec<char>, ini: usize, fim: usize) -> (r: Vec<char>)
    requires
        ini <= fim <= v.len(),
    ensures
        r@ == v@.subrange(ini as int, fim as int),
{
    let mut r: Vec<char> = Vec::new();
    let mut i = ini;
    while i < fim
        invariant
            ini <= i <= fim <= v.len(),
            r@ == v@.subrange(ini as int, i as int),
        decreases fim - i,
    {
        r.push(v[i]);
        assert(r@ =~= v@.subrange(ini as int, i + 1));
        i = i + 1;
    }
    r
}

fn nome_arquivo_exec(v: &Vec<char>) -> (r: Option<Vec<char>>)
    ensures
        match r {
            Some(n) => nome_arquivo(v@) == Some(n@),
            None => nome_arquivo(v@) is None,
        },
{
    let mut fim = v.len();
    assert(v@.take(fim as int) =~= v@);
    loop
        invariant
            fim <= v.len(),
            nome_arquivo(v@) == nome_arquivo(v@.take(fim as int)),
        decreases fim,
    {
        let ini = inicio_apos_ultimo(v, fim, '/');
        let ghost p = v@.take(fim as int);
        let ghost seg = apos_ultimo(p, '/');
        assert(seg.len() == fim - ini);
        let n = fim - ini;
        if n == 0 || (n == 1 && v[ini] == '.') {
            proof {
                if n == 1 {
                    assert(seg =~= seq!['.']);
                }
            }
            if ini == 0 {
                return None;
            }
            assert(p.take(p.len() - seg.len() - 1) =~= v@.take(ini - 1));
            fim = ini - 1;
        } else if n == 2 && v[ini] == '.' && v[ini + 1] == '.' {
            assert(seg =~= seq!['.', '.']);
            return None;
        } else {
            proof {
                if seg == seq!['.'] {
                    assert(seg[0] == v@[ini as int]);
                }
                if seg == seq!['.', '.'] {
                    assert(seg[0] == v@[ini as int] && seg[1] == v@[ini + 1]);
                }
            }
            return Some(copia_trecho(v, ini, fim));
        }
    }
}

fn haste_exec(n: &Vec<char>) -> (r: Vec<char>)
    ensures
        r@ == haste(n@),
{
    let ini = inicio_apos_ultimo(n, n.len(), '.');
    assert(n@.take(n.len() as int) =~= n@);
    if ini == 0 {
        copia_trecho(n, 0, n.len())
    } else if ini - 1 == 0 {
        copia_trecho(n, 0, n.len())
    } else {
        assert(n@.take(ini - 1) =~= n@.subrange(0, ini - 1));
        copia_trecho(n, 0, ini - 1)
    }
}

/// A versão esperada é o nome do arquivo de schema sem a extensão.
pub fn versao_do_caminho(caminho: &str) -> (r: String)
    ensures
        r@ == versao_v(caminho@),
{
    let v = caracteres(caminho);
    match nome_arquivo_exec(&v) {
        Some(nome) => {
            let h = haste_exec(&nome);
            texto_de(&h)
        },
        None => {
            let vazio: Vec<char> = Vec::new();
            assert(vazio@ =~= Seq::<char>::empty());
            texto_de(&vazio)
        },
    }
}

/// A extensão de um nome de arquivo: o que vem depois do último `.`,
/// se há `.` e algo antes dele.
pub open spec fn extensao(n: Seq<char>) -> Option<Seq<char>> {
    let depois = apos_ultimo(n, '.');
    if depois.len() < n.len() && n.len() - depois.len() - 1 > 0 {
        Some(depois)
    } else {
        None
    }
}

/// O código de idioma de um arquivo de catálogo: o nome sem a extensão,
/// em minúsculas, se o arquivo tem a extensão `toml`.
pub open spec fn codigo_de_catalogo_v(p: Seq<char>) -> Option<Seq<char>> {
    match nome_arquivo(p) {
        Some(n) => if extensao(n) == Some("toml"@) {
            Some(minusculas(haste(n)))
        } else {
            None
        },
        None => None,
    }
}

/// O código de idioma que um arquivo de um diretório de catálogos traz
/// no nome (`PT.toml` dá `pt`); nenhum se não é um arquivo `.toml`.
pub fn codigo_de_catalogo(caminho: &str) -> (r: Option<String>)
    ensures
        opt_v(r) == codigo_de_catalogo_v(caminho@),
{
    let v = caracteres(caminho);
    match nome_arquivo_exec(&v) {
        Some(nome) => {
            let ini = inicio_apos_ultimo(&nome, nome.len(), '.');
            assert(nome@.take(nome.len() as int) =~= nome@);
            if ini >= 2 {
                let ext = texto_de(&copia_trecho(&nome, ini, nome.len()));
                if textos_iguais(ext.as_str(), "toml") {
                    let h = texto_de(&haste_exec(&nome));
                    Some(minusculas_exec(h.as_str()))
                } else {
                    None
                }
            } else {
                None
            }
        },
        None => None,
    }
}

} // verus!
