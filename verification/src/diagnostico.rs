//! Diagnósticos como dados: nível, local e mensagem. O texto só aparece
//! na renderização, no idioma pedido.

use vstd::prelude::*;

use crate::idiomas::{args_v, interpolar, texto_v, Idiomas, Secao};
use crate::texto::{textos, textos_str, unir, unir_exec};

verus! {

/// Único campo fixo do Elemento de Requisito, nunca localizado.
pub const CAMPO_SCHEMA_ID: &'static str = "schema_id";

#[derive(Debug, Clone, Copy, PartialEq, Eq, Structural)]
pub enum Nivel {
    Erro,
    Aviso,
}

/// Chave de catálogo do rótulo de um nível.
pub open spec fn chave_nivel(n: Nivel) -> Seq<char> {
    match n {
        Nivel::Erro => "nivel-erro"@,
        Nivel::Aviso => "nivel-aviso"@,
    }
}

impl Nivel {
    pub fn chave(self) -> (r: &'static str)
        ensures
            r@ == chave_nivel(self),
    {
        match self {
            Nivel::Erro => "nivel-erro",
            Nivel::Aviso => "nivel-aviso",
        }
    }
}

/// Onde o problema foi encontrado.
#[derive(Debug, Clone)]
pub enum Local {
    Arquivo,
    Toml,
    Schema,
    /// Caminho do campo como escrito no arquivo (ex: "relacoes[0].tipo").
    Campo(String),
}

pub enum LocalV {
    Arquivo,
    Toml,
    Schema,
    Campo(Seq<char>),
}

impl View for Local {
    type V = LocalV;

    open spec fn view(&self) -> LocalV {
        match self {
            Local::Arquivo => LocalV::Arquivo,
            Local::Toml => LocalV::Toml,
            Local::Schema => LocalV::Schema,
            Local::Campo(c) => LocalV::Campo(c@),
        }
    }
}

/// Como um local aparece no log.
pub open spec fn local_texto(id: Seq<(Seq<char>, crate::idiomas::CatalogoV)>, codigo: Seq<char>, l: LocalV) -> Seq<char> {
    match l {
        LocalV::Arquivo => texto_v(id, codigo, Secao::Ui, "local-arquivo"@),
        LocalV::Toml => texto_v(id, codigo, Secao::Ui, "local-toml"@),
        LocalV::Schema => texto_v(id, codigo, Secao::Ui, "local-schema"@),
        LocalV::Campo(c) => c,
    }
}

impl Local {
    pub fn render(&self, idiomas: &Idiomas, codigo: &str) -> (r: String)
        ensures
            r@ == local_texto(idiomas@, codigo@, self@),
    {
        match self {
            Local::Arquivo => idiomas.rot(codigo, "local-arquivo"),
            Local::Toml => idiomas.rot(codigo, "local-toml"),
            Local::Schema => idiomas.rot(codigo, "local-schema"),
            Local::Campo(c) => c.clone(),
        }
    }
}

/// Toda mensagem que o validador sabe emitir.
#[derive(Debug, Clone)]
pub enum Msg {
    ArquivoIlegivel(String),
    TomlInvalido(String),
    NaoEhTabelaRaiz,
    SchemaIdAusente,
    VersaoDivergente { no_arquivo: String, carregado: String },
    SchemaSemCampoCanonico(String),
    SchemaSemAliasDoCampo { campo: String, idioma: String },
    TipoAusente,
    TipoSemCamposEspecificos(String),
    EsperadoTexto(String),
    EsperadoListaTextos(String),
    EsperadoListaTabelas(String),
    EsperadoTabela(String),
    ListaVaziaObrigatoria,
    EnumInvalido {
        valor: String,
        idioma: String,
        permitidos: Vec<String>,
        em_outro_idioma: Option<(String, String)>,
    },
    AliasDeOutroIdioma {
        canonico: String,
        idioma_do_alias: String,
        idioma_declarado: String,
        subcampo: bool,
    },
    CampoDesconhecido { idioma: String, subcampo: bool },
    ObrigatorioAusente { canonico: String, subcampo: bool },
    TipoDadoDesconhecido(String),
    SemSubcampos,
    AliasAmbiguo { alias: String, idioma: String, anterior: String, atual: String },
    SemAliasNoIdioma { canonico: String, idioma: String },
}

pub enum MsgV {
    ArquivoIlegivel(Seq<char>),
    TomlInvalido(Seq<char>),
    NaoEhTabelaRaiz,
    SchemaIdAusente,
    VersaoDivergente { no_arquivo: Seq<char>, carregado: Seq<char> },
    SchemaSemCampoCanonico(Seq<char>),
    SchemaSemAliasDoCampo { campo: Seq<char>, idioma: Seq<char> },
    TipoAusente,
    TipoSemCamposEspecificos(Seq<char>),
    EsperadoTexto(Seq<char>),
    EsperadoListaTextos(Seq<char>),
    EsperadoListaTabelas(Seq<char>),
    EsperadoTabela(Seq<char>),
    ListaVaziaObrigatoria,
    EnumInvalido {
        valor: Seq<char>,
        idioma: Seq<char>,
        permitidos: Seq<Seq<char>>,
        em_outro_idioma: Option<(Seq<char>, Seq<char>)>,
    },
    AliasDeOutroIdioma {
        canonico: Seq<char>,
        idioma_do_alias: Seq<char>,
        idioma_declarado: Seq<char>,
        subcampo: bool,
    },
    CampoDesconhecido { idioma: Seq<char>, subcampo: bool },
    ObrigatorioAusente { canonico: Seq<char>, subcampo: bool },
    TipoDadoDesconhecido(Seq<char>),
    SemSubcampos,
    AliasAmbiguo { alias: Seq<char>, idioma: Seq<char>, anterior: Seq<char>, atual: Seq<char> },
    SemAliasNoIdioma { canonico: Seq<char>, idioma: Seq<char> },
}

impl View for Msg {
    type V = MsgV;

    open spec fn view(&self) -> MsgV {
        match self {
            Msg::ArquivoIlegivel(e) => MsgV::ArquivoIlegivel(e@),
            Msg::TomlInvalido(e) => MsgV::TomlInvalido(e@),
            Msg::NaoEhTabelaRaiz => MsgV::NaoEhTabelaRaiz,
            Msg::SchemaIdAusente => MsgV::SchemaIdAusente,
            Msg::VersaoDivergente { no_arquivo, carregado } => MsgV::VersaoDivergente {
                no_arquivo: no_arquivo@,
                carregado: carregado@,
            },
            Msg::SchemaSemCampoCanonico(c) => MsgV::SchemaSemCampoCanonico(c@),
            Msg::SchemaSemAliasDoCampo { campo, idioma } => MsgV::SchemaSemAliasDoCampo {
                campo: campo@,
                idioma: idioma@,
            },
            Msg::TipoAusente => MsgV::TipoAusente,
            Msg::TipoSemCamposEspecificos(t) => MsgV::TipoSemCamposEspecificos(t@),
            Msg::EsperadoTexto(e) => MsgV::EsperadoTexto(e@),
            Msg::EsperadoListaTextos(e) => MsgV::EsperadoListaTextos(e@),
            Msg::EsperadoListaTabelas(e) => MsgV::EsperadoListaTabelas(e@),
            Msg::EsperadoTabela(e) => MsgV::EsperadoTabela(e@),
            Msg::ListaVaziaObrigatoria => MsgV::ListaVaziaObrigatoria,
            Msg::EnumInvalido { valor, idioma, permitidos, em_outro_idioma } => MsgV::EnumInvalido {
                valor: valor@,
                idioma: idioma@,
                permitidos: textos(permitidos@),
                em_outro_idioma: match em_outro_idioma {
                    Some(p) => Some((p.0@, p.1@)),
                    None => None,
                },
            },
            Msg::AliasDeOutroIdioma { canonico, idioma_do_alias, idioma_declarado, subcampo } =>
                MsgV::AliasDeOutroIdioma {
                    canonico: canonico@,
                    idioma_do_alias: idioma_do_alias@,
                    idioma_declarado: idioma_declarado@,
                    subcampo: *subcampo,
                },
            Msg::CampoDesconhecido { idioma, subcampo } => MsgV::CampoDesconhecido {
                idioma: idioma@,
                subcampo: *subcampo,
            },
            Msg::ObrigatorioAusente { canonico, subcampo } => MsgV::ObrigatorioAusente {
                canonico: canonico@,
                subcampo: *subcampo,
            },
            Msg::TipoDadoDesconhecido(t) => MsgV::TipoDadoDesconhecido(t@),
            Msg::SemSubcampos => MsgV::SemSubcampos,
            Msg::AliasAmbiguo { alias, idioma, anterior, atual } => MsgV::AliasAmbiguo {
                alias: alias@,
                idioma: idioma@,
                anterior: anterior@,
                atual: atual@,
            },
            Msg::SemAliasNoIdioma { canonico, idioma } => MsgV::SemAliasNoIdioma {
                canonico: canonico@,
                idioma: idioma@,
            },
        }
    }
}

/// Chave de catálogo de cada mensagem.
pub open spec fn chave_msg(m: MsgV) -> Seq<char> {
    match m {
        MsgV::ArquivoIlegivel(_) => "arquivo-ilegivel"@,
        MsgV::TomlInvalido(_) => "toml-invalido"@,
        MsgV::NaoEhTabelaRaiz => "nao-eh-tabela-raiz"@,
        MsgV::SchemaIdAusente => "schema-id-ausente"@,
        MsgV::VersaoDivergente { .. } => "versao-divergente"@,
        MsgV::SchemaSemCampoCanonico(_) => "schema-sem-campo-canonico"@,
        MsgV::SchemaSemAliasDoCampo { .. } => "schema-sem-alias-do-campo"@,
        MsgV::TipoAusente => "tipo-ausente"@,
        MsgV::TipoSemCamposEspecificos(_) => "tipo-sem-campos-especificos"@,
        MsgV::EsperadoTexto(_) => "esperado-texto"@,
        MsgV::EsperadoListaTextos(_) => "esperado-lista-textos"@,
        MsgV::EsperadoListaTabelas(_) => "esperado-lista-tabelas"@,
        MsgV::EsperadoTabela(_) => "esperado-tabela"@,
        MsgV::ListaVaziaObrigatoria => "lista-vazia-obrigatoria"@,
        MsgV::EnumInvalido { em_outro_idioma, .. } => match em_outro_idioma {
            Some(_) => "enum-invalido-outro-idioma"@,
            None => "enum-invalido"@,
        },
        MsgV::AliasDeOutroIdioma { subcampo, .. } => if subcampo {
            "alias-de-outro-idioma-subcampo"@
        } else {
            "alias-de-outro-idioma"@
        },
        MsgV::CampoDesconhecido { subcampo, .. } => if subcampo {
            "subcampo-desconhecido"@
        } else {
            "campo-desconhecido"@
        },
        MsgV::ObrigatorioAusente { subcampo, .. } => if subcampo {
            "subcampo-obrigatorio-ausente"@
        } else {
            "obrigatorio-ausente"@
        },
        MsgV::TipoDadoDesconhecido(_) => "tipo-dado-desconhecido"@,
        MsgV::SemSubcampos => "sem-subcampos"@,
        MsgV::AliasAmbiguo { .. } => "alias-ambiguo"@,
        MsgV::SemAliasNoIdioma { .. } => "sem-alias-no-idioma"@,
    }
}

/// Argumentos nomeados de cada mensagem.
pub open spec fn args_msg(m: MsgV) -> Seq<(Seq<char>, Seq<char>)> {
    match m {
        MsgV::ArquivoIlegivel(e) => seq![("erro"@, e)],
        MsgV::TomlInvalido(e) => seq![("erro"@, e)],
        MsgV::NaoEhTabelaRaiz => seq![],
        MsgV::SchemaIdAusente => seq![("campo"@, CAMPO_SCHEMA_ID@)],
        MsgV::VersaoDivergente { no_arquivo, carregado } => seq![("no_arquivo"@, no_arquivo), ("carregado"@, carregado)],
        MsgV::SchemaSemCampoCanonico(c) => seq![("campo"@, c)],
        MsgV::SchemaSemAliasDoCampo { campo, idioma } => seq![("campo"@, campo), ("idioma"@, idioma)],
        MsgV::TipoAusente => seq![],
        MsgV::TipoSemCamposEspecificos(t) => seq![("tipo"@, t)],
        MsgV::EsperadoTexto(e) => seq![("encontrado"@, e)],
        MsgV::EsperadoListaTextos(e) => seq![("encontrado"@, e)],
        MsgV::EsperadoListaTabelas(e) => seq![("encontrado"@, e)],
        MsgV::EsperadoTabela(e) => seq![("encontrado"@, e)],
        MsgV::ListaVaziaObrigatoria => seq![],
        MsgV::EnumInvalido { valor, idioma, permitidos, em_outro_idioma } => {
            let base = seq![("valor"@, valor), ("idioma"@, idioma), ("permitidos"@, unir(permitidos, ", "@))];
            match em_outro_idioma {
                Some(p) => base + seq![("canonico"@, p.0), ("idioma_do_alias"@, p.1)],
                None => base,
            }
        },
        MsgV::AliasDeOutroIdioma { canonico, idioma_do_alias, idioma_declarado, .. } => seq![
            ("canonico"@, canonico),
            ("idioma_do_alias"@, idioma_do_alias),
            ("idioma_declarado"@, idioma_declarado),
        ],
        MsgV::CampoDesconhecido { idioma, .. } => seq![("idioma"@, idioma)],
        MsgV::ObrigatorioAusente { canonico, .. } => seq![("canonico"@, canonico)],
        MsgV::TipoDadoDesconhecido(t) => seq![("tipo_dado"@, t)],
        MsgV::SemSubcampos => seq![],
        MsgV::AliasAmbiguo { alias, idioma, anterior, atual } => seq![
            ("alias"@, alias),
            ("idioma"@, idioma),
            ("anterior"@, anterior),
            ("atual"@, atual),
        ],
        MsgV::SemAliasNoIdioma { canonico, idioma } => seq![("canonico"@, canonico), ("idioma"@, idioma)],
    }
}

/// Um argumento nomeado: o nome é literal, o valor é cópia.
fn arg(nome: &'static str, valor: &String) -> (r: (&'static str, String))
    ensures
        r.0@ == nome@,
        r.1@ == valor@,
{
    (nome, valor.clone())
}

impl Msg {
    /// Chave do catálogo e argumentos nomeados.
    pub fn chave_e_args(&self) -> (r: (&'static str, Vec<(&'static str, String)>))
        ensures
            r.0@ == chave_msg(self@),
            args_v(r.1@) == args_msg(self@),
    {
        let r: (&'static str, Vec<(&'static str, String)>) = match self {
            Msg::ArquivoIlegivel(e) => ("arquivo-ilegivel", vec![arg("erro", e)]),
            Msg::TomlInvalido(e) => ("toml-invalido", vec![arg("erro", e)]),
            Msg::NaoEhTabelaRaiz => ("nao-eh-tabela-raiz", vec![]),
            Msg::SchemaIdAusente => ("schema-id-ausente", vec![("campo", String::from_str(CAMPO_SCHEMA_ID))]),
            Msg::VersaoDivergente { no_arquivo, carregado } => (
                "versao-divergente",
                vec![arg("no_arquivo", no_arquivo), arg("carregado", carregado)],
            ),
            Msg::SchemaSemCampoCanonico(c) => ("schema-sem-campo-canonico", vec![arg("campo", c)]),
            Msg::SchemaSemAliasDoCampo { campo, idioma } => (
                "schema-sem-alias-do-campo",
                vec![arg("campo", campo), arg("idioma", idioma)],
            ),
            Msg::TipoAusente => ("tipo-ausente", vec![]),
            Msg::TipoSemCamposEspecificos(t) => ("tipo-sem-campos-especificos", vec![arg("tipo", t)]),
            Msg::EsperadoTexto(e) => ("esperado-texto", vec![arg("encontrado", e)]),
            Msg::EsperadoListaTextos(e) => ("esperado-lista-textos", vec![arg("encontrado", e)]),
            Msg::EsperadoListaTabelas(e) => ("esperado-lista-tabelas", vec![arg("encontrado", e)]),
            Msg::EsperadoTabela(e) => ("esperado-tabela", vec![arg("encontrado", e)]),
            Msg::ListaVaziaObrigatoria => ("lista-vazia-obrigatoria", vec![]),
            Msg::EnumInvalido { valor, idioma, permitidos, em_outro_idioma } => {
                let mut args = vec![
                    arg("valor", valor),
                    arg("idioma", idioma),
                    ("permitidos", unir_exec(permitidos, ", ")),
                ];
                match em_outro_idioma {
                    Some((canonico, lang)) => {
                        args.push(arg("canonico", canonico));
                        args.push(arg("idioma_do_alias", lang));
                        ("enum-invalido-outro-idioma", args)
                    },
                    None => ("enum-invalido", args),
                }
            },
            Msg::AliasDeOutroIdioma { canonico, idioma_do_alias, idioma_declarado, subcampo } => {
                let chave = if *subcampo {
                    "alias-de-outro-idioma-subcampo"
                } else {
                    "alias-de-outro-idioma"
                };
                (
                    chave,
                    vec![
                        arg("canonico", canonico),
                        arg("idioma_do_alias", idioma_do_alias),
                        arg("idioma_declarado", idioma_declarado),
                    ],
                )
            },
            Msg::CampoDesconhecido { idioma, subcampo } => {
                let chave = if *subcampo {
                    "subcampo-desconhecido"
                } else {
                    "campo-desconhecido"
                };
                (chave, vec![arg("idioma", idioma)])
            },
            Msg::ObrigatorioAusente { canonico, subcampo } => {
                let chave = if *subcampo {
                    "subcampo-obrigatorio-ausente"
                } else {
                    "obrigatorio-ausente"
                };
                (chave, vec![arg("canonico", canonico)])
            },
            Msg::TipoDadoDesconhecido(t) => ("tipo-dado-desconhecido", vec![arg("tipo_dado", t)]),
            Msg::SemSubcampos => ("sem-subcampos", vec![]),
            Msg::AliasAmbiguo { alias, idioma, anterior, atual } => (
                "alias-ambiguo",
                vec![
                    arg("alias", alias),
                    arg("idioma", idioma),
                    arg("anterior", anterior),
                    arg("atual", atual),
                ],
            ),
            Msg::SemAliasNoIdioma { canonico, idioma } => (
                "sem-alias-no-idioma",
                vec![arg("canonico", canonico), arg("idioma", idioma)],
            ),
        };
        assert(args_v(r.1@) =~= args_msg(self@));
        r
    }

    pub fn render(&self, idiomas: &Idiomas, codigo: &str) -> (r: String)
        ensures
            r@ == interpolar(texto_v(idiomas@, codigo@, Secao::Msg, chave_msg(self@)), args_msg(self@)),
    {
        let (chave, args) = self.chave_e_args();
        idiomas.msg(codigo, chave, &args)
    }
}

} // verus!

verus! {

#[derive(Debug)]
pub struct Diagnostico {
    pub nivel: Nivel,
    pub local: Local,
    pub msg: Msg,
}

pub struct DiagV {
    pub nivel: Nivel,
    pub local: LocalV,
    pub msg: MsgV,
}

impl View for Diagnostico {
    type V = DiagV;

    open spec fn view(&self) -> DiagV {
        DiagV { nivel: self.nivel, local: self.local@, msg: self.msg@ }
    }
}

impl Diagnostico {
    pub fn erro(local: Local, msg: Msg) -> (r: Self)
        ensures
            r@ == (DiagV { nivel: Nivel::Erro, local: local@, msg: msg@ }),
    {
        Diagnostico { nivel: Nivel::Erro, local, msg }
    }

    pub fn aviso(local: Local, msg: Msg) -> (r: Self)
        ensures
            r@ == (DiagV { nivel: Nivel::Aviso, local: local@, msg: msg@ }),
    {
        Diagnostico { nivel: Nivel::Aviso, local, msg }
    }
}

/// Local de campo.
pub fn campo(nome: String) -> (r: Local)
    ensures
        r@ == LocalV::Campo(nome@),
{
    Local::Campo(nome)
}

/// As visões de uma lista de diagnósticos.
pub open spec fn diags_v(d: Seq<Diagnostico>) -> Seq<DiagV> {
    d.map_values(|x: Diagnostico| x@)
}

/// Quantos diagnósticos têm o nível dado.
pub open spec fn contar(ds: Seq<DiagV>, n: Nivel) -> nat
    decreases ds.len(),
{
    if ds.len() == 0 {
        0
    } else {
        contar(ds.drop_last(), n) + if ds.last().nivel == n { 1nat } else { 0nat }
    }
}

pub proof fn lema_contar_limite(ds: Seq<DiagV>, n: Nivel)
    ensures
        contar(ds, n) <= ds.len(),
    decreases ds.len(),
{
    if ds.len() > 0 {
        lema_contar_limite(ds.drop_last(), n);
    }
}

/// Todo diagnóstico é erro ou aviso: as duas contagens somam o total.
pub proof fn lei_erros_mais_avisos(ds: Seq<DiagV>)
    ensures
        contar(ds, Nivel::Erro) + contar(ds, Nivel::Aviso) == ds.len(),
    decreases ds.len(),
{
    if ds.len() > 0 {
        lei_erros_mais_avisos(ds.drop_last());
    }
}

pub proof fn lema_contar_concat(a: Seq<DiagV>, b: Seq<DiagV>, n: Nivel)
    ensures
        contar(a + b, n) == contar(a, n) + contar(b, n),
    decreases b.len(),
{
    if b.len() == 0 {
        assert(a + b =~= a);
    } else {
        assert((a + b).drop_last() =~= a + b.drop_last());
        lema_contar_concat(a, b.drop_last(), n);
    }
}

/// O resultado da validação de um arquivo.
#[derive(Debug)]
pub struct Relatorio {
    pub schema_id: Option<String>,
    pub idioma: Option<String>,
    pub tipo: Option<String>,
    pub campos_reconhecidos: usize,
    pub diagnosticos: Vec<Diagnostico>,
}

pub struct RelatorioV {
    pub schema_id: Option<Seq<char>>,
    pub idioma: Option<Seq<char>>,
    pub tipo: Option<Seq<char>>,
    pub campos_reconhecidos: nat,
    pub diagnosticos: Seq<DiagV>,
}

pub open spec fn opt_v(o: Option<String>) -> Option<Seq<char>> {
    match o {
        Some(s) => Some(s@),
        None => None,
    }
}

impl View for Relatorio {
    type V = RelatorioV;

    open spec fn view(&self) -> RelatorioV {
        RelatorioV {
            schema_id: opt_v(self.schema_id),
            idioma: opt_v(self.idioma),
            tipo: opt_v(self.tipo),
            campos_reconhecidos: self.campos_reconhecidos as nat,
            diagnosticos: diags_v(self.diagnosticos@),
        }
    }
}

/// Relatório vazio.
pub open spec fn relatorio_vazio() -> RelatorioV {
    RelatorioV {
        schema_id: None,
        idioma: None,
        tipo: None,
        campos_reconhecidos: 0,
        diagnosticos: Seq::empty(),
    }
}

impl Default for Relatorio {
    fn default() -> (r: Self)
        ensures
            r@ == relatorio_vazio(),
    {
        let r = Relatorio {
            schema_id: None,
            idioma: None,
            tipo: None,
            campos_reconhecidos: 0,
            diagnosticos: Vec::new(),
        };
        assert(r@.diagnosticos =~= Seq::<DiagV>::empty());
        r
    }
}

pub open spec fn erros_v(r: RelatorioV) -> nat {
    contar(r.diagnosticos, Nivel::Erro)
}

pub open spec fn avisos_v(r: RelatorioV) -> nat {
    contar(r.diagnosticos, Nivel::Aviso)
}

pub open spec fn valido_v(r: RelatorioV) -> bool {
    erros_v(r) == 0
}

/// Chaves de catálogo dos diagnósticos, em ordem.
pub open spec fn chaves_v(r: RelatorioV) -> Seq<Seq<char>> {
    r.diagnosticos.map_values(|d: DiagV| chave_msg(d.msg))
}

impl Relatorio {
    fn contar_exec(&self, n: Nivel) -> (r: usize)
        ensures
            r == contar(self@.diagnosticos, n),
    {
        let ghost ds = self@.diagnosticos;
        let mut c: usize = 0;
        let mut i: usize = 0;
        assert(ds.take(0) =~= Seq::<DiagV>::empty());
        while i < self.diagnosticos.len()
            invariant
                ds == diags_v(self.diagnosticos@),
                0 <= i <= ds.len(),
                c == contar(ds.take(i as int), n),
            decreases ds.len() - i,
        {
            proof {
                assert(ds.take(i + 1).drop_last() =~= ds.take(i as int));
                lema_contar_limite(ds.take(i as int), n);
            }
            if self.diagnosticos[i].nivel == n {
                c = c + 1;
            }
            i = i + 1;
        }
        assert(ds.take(i as int) =~= ds);
        c
    }

    pub fn erros(&self) -> (r: usize)
        ensures
            r == erros_v(self@),
    {
        self.contar_exec(Nivel::Erro)
    }

    pub fn avisos(&self) -> (r: usize)
        ensures
            r == avisos_v(self@),
    {
        self.contar_exec(Nivel::Aviso)
    }

    pub fn valido(&self) -> (r: bool)
        ensures
            r == valido_v(self@),
    {
        self.erros() == 0
    }

    /// Chaves de catálogo dos diagnósticos, na ordem em que saíram.
    pub fn chaves(&self) -> (r: Vec<&'static str>)
        ensures
            textos_str(r@) == chaves_v(self@),
    {
        let ghost ds = self@.diagnosticos;
        let mut r: Vec<&'static str> = Vec::new();
        let mut i: usize = 0;
        while i < self.diagnosticos.len()
            invariant
                ds == diags_v(self.diagnosticos@),
                0 <= i <= ds.len(),
                textos_str(r@) == chaves_v(self@).take(i as int),
            decreases ds.len() - i,
        {
            let (chave, _) = self.diagnosticos[i].msg.chave_e_args();
            let ghost antes = r@;
            r.push(chave);
            assert(textos_str(r@) =~= textos_str(antes).push(chave@));
            assert(chaves_v(self@)[i as int] == chave_msg(self.diagnosticos@[i as int].msg@));
            i = i + 1;
            assert(textos_str(r@) =~= chaves_v(self@).take(i as int));
        }
        assert(chaves_v(self@).take(i as int) =~= chaves_v(self@));
        r
    }
}

} // verus!


verus! {

/// A espécie de uma mensagem: a variante e, onde há, a marca de subcampo
/// ou de valor em outro idioma. São 26 espécies.
pub open spec fn especie(m: MsgV) -> nat {
    match m {
        MsgV::ArquivoIlegivel(_) => 0,
        MsgV::TomlInvalido(_) => 1,
        MsgV::NaoEhTabelaRaiz => 2,
        MsgV::SchemaIdAusente => 3,
        MsgV::VersaoDivergente { .. } => 4,
        MsgV::SchemaSemCampoCanonico(_) => 5,
        MsgV::SchemaSemAliasDoCampo { .. } => 6,
        MsgV::TipoAusente => 7,
        MsgV::TipoSemCamposEspecificos(_) => 8,
        MsgV::EsperadoTexto(_) => 9,
        MsgV::EsperadoListaTextos(_) => 10,
        MsgV::EsperadoListaTabelas(_) => 11,
        MsgV::EsperadoTabela(_) => 12,
        MsgV::ListaVaziaObrigatoria => 13,
        MsgV::EnumInvalido { em_outro_idioma, .. } => if em_outro_idioma is Some { 15 } else { 14 },
        MsgV::AliasDeOutroIdioma { subcampo, .. } => if subcampo { 17 } else { 16 },
        MsgV::CampoDesconhecido { subcampo, .. } => if subcampo { 19 } else { 18 },
        MsgV::ObrigatorioAusente { subcampo, .. } => if subcampo { 21 } else { 20 },
        MsgV::TipoDadoDesconhecido(_) => 22,
        MsgV::SemSubcampos => 23,
        MsgV::AliasAmbiguo { .. } => 24,
        MsgV::SemAliasNoIdioma { .. } => 25,
    }
}

/// A chave de catálogo de cada espécie.
pub open spec fn chave_de_especie(n: nat) -> Seq<char> {
    if n == 0 {
        "arquivo-ilegivel"@
    } else if n == 1 {
        "toml-invalido"@
    } else if n == 2 {
        "nao-eh-tabela-raiz"@
    } else if n == 3 {
        "schema-id-ausente"@
    } else if n == 4 {
        "versao-divergente"@
    } else if n == 5 {
        "schema-sem-campo-canonico"@
    } else if n == 6 {
        "schema-sem-alias-do-campo"@
    } else if n == 7 {
        "tipo-ausente"@
    } else if n == 8 {
        "tipo-sem-campos-especificos"@
    } else if n == 9 {
        "esperado-texto"@
    } else if n == 10 {
        "esperado-lista-textos"@
    } else if n == 11 {
        "esperado-lista-tabelas"@
    } else if n == 12 {
        "esperado-tabela"@
    } else if n == 13 {
        "lista-vazia-obrigatoria"@
    } else if n == 14 {
        "enum-invalido"@
    } else if n == 15 {
        "enum-invalido-outro-idioma"@
    } else if n == 16 {
        "alias-de-outro-idioma"@
    } else if n == 17 {
        "alias-de-outro-idioma-subcampo"@
    } else if n == 18 {
        "campo-desconhecido"@
    } else if n == 19 {
        "subcampo-desconhecido"@
    } else if n == 20 {
        "obrigatorio-ausente"@
    } else if n == 21 {
        "subcampo-obrigatorio-ausente"@
    } else if n == 22 {
        "tipo-dado-desconhecido"@
    } else if n == 23 {
        "sem-subcampos"@
    } else if n == 24 {
        "alias-ambiguo"@
    } else {
        "sem-alias-no-idioma"@
    }
}

/// Reconhece a espécie pela chave (pelo tamanho e por um caractere).
spec fn especie_da_chave(s: Seq<char>) -> int {
    if s.len() == 12 {
        7
    } else if s.len() == 13 {
        if s[0] == 't' {
            1
        } else if s[0] == 'e' {
            14
        } else if s[0] == 's' {
            23
        } else {
            24
        }
    } else if s.len() == 14 {
        9
    } else if s.len() == 15 {
        12
    } else if s.len() == 16 {
        0
    } else if s.len() == 17 {
        if s[0] == 's' {
            3
        } else {
            4
        }
    } else if s.len() == 18 {
        if s[0] == 'n' {
            2
        } else {
            18
        }
    } else if s.len() == 19 {
        if s[0] == 'o' {
            20
        } else {
            25
        }
    } else if s.len() == 21 {
        if s[0] == 'e' {
            10
        } else if s[0] == 'a' {
            16
        } else {
            19
        }
    } else if s.len() == 22 {
        if s[0] == 'e' {
            11
        } else {
            22
        }
    } else if s.len() == 23 {
        13
    } else if s.len() == 25 {
        if s[11] == 'c' {
            5
        } else {
            6
        }
    } else if s.len() == 26 {
        15
    } else if s.len() == 27 {
        8
    } else if s.len() == 28 {
        21
    } else if s.len() == 30 {
        17
    } else {
        -1
    }
}

proof fn lema_chaves_reconheciveis()
    ensures
        forall|n: nat| n < 26 ==> especie_da_chave(#[trigger] chave_de_especie(n)) == n,
{
    reveal_strlit("arquivo-ilegivel");
    reveal_strlit("toml-invalido");
    reveal_strlit("nao-eh-tabela-raiz");
    reveal_strlit("schema-id-ausente");
    reveal_strlit("versao-divergente");
    reveal_strlit("schema-sem-campo-canonico");
    reveal_strlit("schema-sem-alias-do-campo");
    reveal_strlit("tipo-ausente");
    reveal_strlit("tipo-sem-campos-especificos");
    reveal_strlit("esperado-texto");
    reveal_strlit("esperado-lista-textos");
    reveal_strlit("esperado-lista-tabelas");
    reveal_strlit("esperado-tabela");
    reveal_strlit("lista-vazia-obrigatoria");
    reveal_strlit("enum-invalido");
    reveal_strlit("enum-invalido-outro-idioma");
    reveal_strlit("alias-de-outro-idioma");
    reveal_strlit("alias-de-outro-idioma-subcampo");
    reveal_strlit("campo-desconhecido");
    reveal_strlit("subcampo-desconhecido");
    reveal_strlit("obrigatorio-ausente");
    reveal_strlit("subcampo-obrigatorio-ausente");
    reveal_strlit("tipo-dado-desconhecido");
    reveal_strlit("sem-subcampos");
    reveal_strlit("alias-ambiguo");
    reveal_strlit("sem-alias-no-idioma");
    assert(especie_da_chave(chave_de_especie(0)) == 0);
    assert(especie_da_chave(chave_de_especie(1)) == 1);
    assert(especie_da_chave(chave_de_especie(2)) == 2);
    assert(especie_da_chave(chave_de_especie(3)) == 3);
    assert(especie_da_chave(chave_de_especie(4)) == 4);
    assert(especie_da_chave(chave_de_especie(5)) == 5);
    assert(especie_da_chave(chave_de_especie(6)) == 6);
    assert(especie_da_chave(chave_de_especie(7)) == 7);
    assert(especie_da_chave(chave_de_especie(8)) == 8);
    assert(especie_da_chave(chave_de_especie(9)) == 9);
    assert(especie_da_chave(chave_de_especie(10)) == 10);
    assert(especie_da_chave(chave_de_especie(11)) == 11);
    assert(especie_da_chave(chave_de_especie(12)) == 12);
    assert(especie_da_chave(chave_de_especie(13)) == 13);
    assert(especie_da_chave(chave_de_especie(14)) == 14);
    assert(especie_da_chave(chave_de_especie(15)) == 15);
    assert(especie_da_chave(chave_de_especie(16)) == 16);
    assert(especie_da_chave(chave_de_especie(17)) == 17);
    assert(especie_da_chave(chave_de_especie(18)) == 18);
    assert(especie_da_chave(chave_de_especie(19)) == 19);
    assert(especie_da_chave(chave_de_especie(20)) == 20);
    assert(especie_da_chave(chave_de_especie(21)) == 21);
    assert(especie_da_chave(chave_de_especie(22)) == 22);
    assert(especie_da_chave(chave_de_especie(23)) == 23);
    assert(especie_da_chave(chave_de_especie(24)) == 24);
    assert(especie_da_chave(chave_de_especie(25)) == 25);
    assert forall|n: nat| n < 26 implies especie_da_chave(#[trigger] chave_de_especie(n)) == n by {
        assert(n == 0 || n == 1 || n == 2 || n == 3 || n == 4 || n == 5 || n == 6 || n == 7 || n == 8 || n == 9 || n == 10
            || n == 11 || n == 12 || n == 13 || n == 14 || n == 15 || n == 16 || n == 17 || n == 18 || n == 19 || n == 20
            || n == 21 || n == 22 || n == 23 || n == 24 || n == 25);
    }
}

/// Cada espécie de mensagem tem a sua própria chave de catálogo, e nenhum
/// texto carregado pela mensagem muda a chave: duas mensagens têm a mesma
/// chave exatamente quando são da mesma espécie.
pub proof fn lei_cada_especie_tem_sua_chave(m1: MsgV, m2: MsgV)
    ensures
        (chave_msg(m1) == chave_msg(m2)) <==> (especie(m1) == especie(m2)),
{
    assert(chave_msg(m1) == chave_de_especie(especie(m1)));
    assert(chave_msg(m2) == chave_de_especie(especie(m2)));
    lema_chaves_reconheciveis();
    assert(especie(m1) < 26 && especie(m2) < 26);
    if chave_msg(m1) == chave_msg(m2) {
        assert(especie_da_chave(chave_de_especie(especie(m1))) == especie(m1));
        assert(especie_da_chave(chave_de_especie(especie(m2))) == especie(m2));
    }
}

/// A chave de uma mensagem é a da sua espécie.
pub proof fn lema_chave_da_especie(m: MsgV)
    ensures
        chave_msg(m) == chave_de_especie(especie(m)),
        especie(m) < 26,
{
}

/// Espécies diferentes têm chaves diferentes.
pub proof fn lema_chaves_distintas(i: nat, j: nat)
    requires
        i < 26,
        j < 26,
        i != j,
    ensures
        chave_de_especie(i) != chave_de_especie(j),
{
    lema_chaves_reconheciveis();
    assert(especie_da_chave(chave_de_especie(i)) == i);
    assert(especie_da_chave(chave_de_especie(j)) == j);
}

} // verus!
