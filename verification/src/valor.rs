//! Documento TOML como dado da biblioteca: texto, lista, tabela (chaves em
//! ordem crescente, como as entrega o `toml`) ou outro tipo escalar.

use vstd::prelude::*;

verus! {

/// Um valor TOML, com o que a validação lê dele.
#[derive(Debug)]
pub enum Valor {
    Texto(String),
    Lista(Vec<Valor>),
    Tabela(Vec<(String, Valor)>),
    /// Inteiro, real, booleano ou data: guarda o nome do tipo.
    Outro(String),
}

pub enum ValorV {
    Texto(Seq<char>),
    Lista(Seq<ValorV>),
    Tabela(Seq<(Seq<char>, ValorV)>),
    Outro(Seq<char>),
}

pub open spec fn valor_v(v: Valor) -> ValorV
    decreases v,
{
    match v {
        Valor::Texto(s) => ValorV::Texto(s@),
        Valor::Lista(l) => ValorV::Lista(lista_v(l@)),
        Valor::Tabela(t) => ValorV::Tabela(tabela_v(t@)),
        Valor::Outro(s) => ValorV::Outro(s@),
    }
}

pub open spec fn lista_v(l: Seq<Valor>) -> Seq<ValorV>
    decreases l,
{
    if l.len() == 0 {
        Seq::empty()
    } else {
        lista_v(l.drop_last()).push(valor_v(l.last()))
    }
}

pub open spec fn tabela_v(t: Seq<(String, Valor)>) -> Seq<(Seq<char>, ValorV)>
    decreases t,
{
    if t.len() == 0 {
        Seq::empty()
    } else {
        tabela_v(t.drop_last()).push((t.last().0@, valor_v(t.last().1)))
    }
}

impl View for Valor {
    type V = ValorV;

    open spec fn view(&self) -> ValorV {
        valor_v(*self)
    }
}

} // verus!

verus! {

pub proof fn lema_lista_v(l: Seq<Valor>)
    ensures
        lista_v(l).len() == l.len(),
        forall|i: int| 0 <= i < l.len() ==> #[trigger] lista_v(l)[i] == valor_v(l[i]),
    decreases l.len(),
{
    if l.len() > 0 {
        lema_lista_v(l.drop_last());
    }
}

pub proof fn lema_tabela_v(t: Seq<(String, Valor)>)
    ensures
        tabela_v(t).len() == t.len(),
        forall|i: int| 0 <= i < t.len() ==> #[trigger] tabela_v(t)[i] == (t[i].0@, valor_v(t[i].1)),
    decreases t.len(),
{
    if t.len() > 0 {
        lema_tabela_v(t.drop_last());
    }
}

/// Nome do tipo de um valor, como o dá `toml::Value::type_str`.
pub open spec fn tipo_str(v: ValorV) -> Seq<char> {
    match v {
        ValorV::Texto(_) => "string"@,
        ValorV::Lista(_) => "array"@,
        ValorV::Tabela(_) => "table"@,
        ValorV::Outro(t) => t,
    }
}

impl Valor {
    pub fn type_str(&self) -> (r: String)
        ensures
            r@ == tipo_str(self@),
    {
        match self {
            Valor::Texto(_) => String::from_str("string"),
            Valor::Lista(_) => String::from_str("array"),
            Valor::Tabela(_) => String::from_str("table"),
            Valor::Outro(t) => t.clone(),
        }
    }

    pub fn as_str(&self) -> (r: Option<&String>)
        ensures
            match r {
                Some(s) => self@ == ValorV::Texto(s@),
                None => !(self@ is Texto),
            },
    {
        match self {
            Valor::Texto(s) => Some(s),
            _ => None,
        }
    }

    pub fn as_array(&self) -> (r: Option<&Vec<Valor>>)
        ensures
            match r {
                Some(l) => self@ == ValorV::Lista(lista_v(l@)),
                None => !(self@ is Lista),
            },
    {
        match self {
            Valor::Lista(l) => Some(l),
            _ => None,
        }
    }

    pub fn as_table(&self) -> (r: Option<&Vec<(String, Valor)>>)
        ensures
            match r {
                Some(t) => self@ == ValorV::Tabela(tabela_v(t@)),
                None => !(self@ is Tabela),
            },
    {
        match self {
            Valor::Tabela(t) => Some(t),
            _ => None,
        }
    }
}

pub open spec fn resultado_toml_v(r: Result<Valor, String>) -> Result<ValorV, Seq<char>> {
    match r {
        Ok(v) => Ok(v@),
        Err(e) => Err(e@),
    }
}

/// O documento que o `toml` lê de um texto, ou a mensagem do seu erro.
pub uninterp spec fn documento_toml(texto: Seq<char>) -> Result<ValorV, Seq<char>>;

/// Chama `toml::from_str::<toml::Value>` e converte o valor lido para
/// [`Valor`], variante por variante. O contrato diz só que o resultado é
/// função do texto (a gramática TOML não é escrita aqui).
#[verifier::external_body]
pub(crate) fn ler_toml(texto: &str) -> (r: Result<Valor, String>)
    ensures
        resultado_toml_v(r) == documento_toml(texto@),
{
    toml::from_str::<toml::Value>(texto).map(de_toml).map_err(|e| e.to_string())
}

/// O valor do crate `toml`, opaco para a verificação.
#[verifier::external_type_specification]
#[verifier::external_body]
pub struct ExValorToml(toml::Value);

/// Conversão de `toml::Value` para [`Valor`]: uma variante para cada
/// variante, campos movidos; o nome do tipo vem de `type_str`.
#[verifier::external_body]
fn de_toml(v: toml::Value) -> Valor {
    match v {
        toml::Value::String(s) => Valor::Texto(s),
        toml::Value::Array(a) => Valor::Lista(a.into_iter().map(de_toml).collect()),
        toml::Value::Table(t) => Valor::Tabela(t.into_iter().map(|(k, x)| (k, de_toml(x))).collect()),
        outro => Valor::Outro(outro.type_str().to_string()),
    }
}

} // verus!
