//! Etapas da execução que não falam com o mundo: o desfecho da carga do
//! schema, o texto do log (cabeçalho, um bloco por arquivo, resumo) e o
//! veredito final.

use vstd::prelude::*;

use crate::caminho::{versao_do_caminho, versao_v};
use crate::cli::{Config, ConfigV, ErroSchema};
use crate::diagnostico::{
    avisos_v, chave_msg, args_msg, chave_nivel, erros_v, local_texto, valido_v, DiagV, MsgV, Relatorio, RelatorioV,
    CAMPO_SCHEMA_ID,
};
use crate::idiomas::{interpolar, plural_v, texto_v, CatalogoV, Idiomas, Secao, FALLBACK};
use crate::mapa::buscar;
use crate::schema::Schema;
use crate::texto::{alinhar, alinhar_exec, decimal, decimal_exec, decimal_u128};
use crate::validacao::resultados_vista;

verus! {

/// Rótulo de interface no idioma `l`.
pub open spec fn rotulo(id: Seq<(Seq<char>, CatalogoV)>, l: Seq<char>, chave: Seq<char>) -> Seq<char> {
    texto_v(id, l, Secao::Ui, chave)
}

/// Texto de uma mensagem de diagnóstico no idioma `l`.
pub open spec fn msg_texto(id: Seq<(Seq<char>, CatalogoV)>, l: Seq<char>, m: MsgV) -> Seq<char> {
    interpolar(texto_v(id, l, Secao::Msg, chave_msg(m)), args_msg(m))
}

/// Uma linha `rótulo: valor`, com o rótulo alinhado em nove colunas.
pub open spec fn linha_rotulo(id: Seq<(Seq<char>, CatalogoV)>, l: Seq<char>, chave: Seq<char>, valor: Seq<char>) -> Seq<char> {
    alinhar(rotulo(id, l, chave), 9) + ": "@ + valor + "\n"@
}

/// A linha de um diagnóstico: nível, local e mensagem em colunas.
pub open spec fn linha_diag(id: Seq<(Seq<char>, CatalogoV)>, l: Seq<char>, d: DiagV) -> Seq<char> {
    "           "@ + alinhar(rotulo(id, l, chave_nivel(d.nivel)), 5) + " "@ + alinhar(local_texto(id, l, d.local), 28)
        + " "@ + msg_texto(id, l, d.msg) + "\n"@
}

pub open spec fn linhas_diags(id: Seq<(Seq<char>, CatalogoV)>, l: Seq<char>, ds: Seq<DiagV>) -> Seq<char>
    decreases ds.len(),
{
    if ds.len() == 0 {
        Seq::empty()
    } else {
        linhas_diags(id, l, ds.drop_last()) + linha_diag(id, l, ds.last())
    }
}

/// A linha do `schema_id` e do idioma declarado, se houve `schema_id`.
pub open spec fn linha_id(id: Seq<(Seq<char>, CatalogoV)>, l: Seq<char>, rel: RelatorioV) -> Seq<char> {
    match rel.schema_id {
        Some(sid) => {
            let idioma_arq = match rel.idioma {
                Some(i) => i,
                None => "?"@,
            };
            "         "@ + CAMPO_SCHEMA_ID@ + " : "@ + sid + "  ("@ + rotulo(id, l, "idioma"@) + ": "@ + idioma_arq + ")\n"@
        },
        None => Seq::empty(),
    }
}

/// A linha do tipo canônico, se foi resolvido.
pub open spec fn linha_tipo(id: Seq<(Seq<char>, CatalogoV)>, l: Seq<char>, rel: RelatorioV) -> Seq<char> {
    match rel.tipo {
        Some(t) => "         "@ + alinhar(rotulo(id, l, "tipo"@), 9) + " : "@ + t + "\n"@,
        None => Seq::empty(),
    }
}

/// O veredito do arquivo com as contagens.
pub open spec fn linha_estado(id: Seq<(Seq<char>, CatalogoV)>, l: Seq<char>, rel: RelatorioV) -> Seq<char> {
    if valido_v(rel) {
        "         "@ + rotulo(id, l, "ok"@) + " — "@ + plural_v(id, l, "campos-reconhecidos"@, rel.campos_reconhecidos)
            + ", "@ + plural_v(id, l, "avisos"@, avisos_v(rel)) + "\n"@
    } else {
        "         "@ + rotulo(id, l, "falha"@) + " — "@ + plural_v(id, l, "erros"@, erros_v(rel)) + ", "@
            + plural_v(id, l, "avisos"@, avisos_v(rel)) + "\n"@
    }
}

/// O bloco de um arquivo no log, no idioma `l`.
pub open spec fn bloco_arquivo(
    id: Seq<(Seq<char>, CatalogoV)>,
    indice: nat,
    total: nat,
    caminho: Seq<char>,
    rel: RelatorioV,
    l: Seq<char>,
) -> Seq<char> {
    "["@ + decimal(indice) + "/"@ + decimal(total) + "] "@ + caminho + "\n"@ + linha_id(id, l, rel) + linha_tipo(id, l, rel)
        + linha_estado(id, l, rel) + linhas_diags(id, l, rel.diagnosticos) + "\n"@
}

fn linha_id_exec(idiomas: &Idiomas, l: &str, rel: &Relatorio) -> (r: String)
    ensures
        r@ == linha_id(idiomas@, l@, rel@),
{
    let mut s = String::new();
    if let Some(sid) = &rel.schema_id {
        s.append("         ");
        s.append(CAMPO_SCHEMA_ID);
        s.append(" : ");
        s.append(sid.as_str());
        s.append("  (");
        s.append(idiomas.rot(l, "idioma").as_str());
        s.append(": ");
        match &rel.idioma {
            Some(i) => s.append(i.as_str()),
            None => s.append("?"),
        }
        s.append(")\n");
    }
    s
}

fn linha_tipo_exec(idiomas: &Idiomas, l: &str, rel: &Relatorio) -> (r: String)
    ensures
        r@ == linha_tipo(idiomas@, l@, rel@),
{
    let mut s = String::new();
    if let Some(t) = &rel.tipo {
        s.append("         ");
        s.append(alinhar_exec(idiomas.rot(l, "tipo").as_str(), 9).as_str());
        s.append(" : ");
        s.append(t.as_str());
        s.append("\n");
    }
    s
}

fn linha_estado_exec(idiomas: &Idiomas, l: &str, rel: &Relatorio) -> (r: String)
    ensures
        r@ == linha_estado(idiomas@, l@, rel@),
{
    let mut s = String::from_str("         ");
    if rel.valido() {
        s.append(idiomas.rot(l, "ok").as_str());
        s.append(" — ");
        s.append(idiomas.plural(l, "campos-reconhecidos", rel.campos_reconhecidos).as_str());
    } else {
        s.append(idiomas.rot(l, "falha").as_str());
        s.append(" — ");
        s.append(idiomas.plural(l, "erros", rel.erros()).as_str());
    }
    s.append(", ");
    s.append(idiomas.plural(l, "avisos", rel.avisos()).as_str());
    s.append("\n");
    s
}

fn linhas_diags_exec(idiomas: &Idiomas, l: &str, rel: &Relatorio) -> (r: String)
    ensures
        r@ == linhas_diags(idiomas@, l@, rel@.diagnosticos),
{
    let ghost ds = rel@.diagnosticos;
    let mut s = String::new();
    let mut i: usize = 0;
    assert(ds.take(0) =~= Seq::<DiagV>::empty());
    while i < rel.diagnosticos.len()
        invariant
            ds == rel@.diagnosticos,
            ds.len() == rel.diagnosticos@.len(),
            0 <= i <= ds.len(),
            s@ == linhas_diags(idiomas@, l@, ds.take(i as int)),
        decreases ds.len() - i,
    {
        let d = &rel.diagnosticos[i];
        assert(ds[i as int] == d@);
        s.append("           ");
        s.append(alinhar_exec(idiomas.rot(l, d.nivel.chave()).as_str(), 5).as_str());
        s.append(" ");
        s.append(alinhar_exec(d.local.render(idiomas, l).as_str(), 28).as_str());
        s.append(" ");
        s.append(d.msg.render(idiomas, l).as_str());
        s.append("\n");
        assert(ds.take(i + 1).drop_last() =~= ds.take(i as int));
        i = i + 1;
    }
    assert(ds.take(i as int) =~= ds);
    s
}

/// O bloco de um arquivo: posição, caminho, `schema_id`, tipo, veredito
/// e um diagnóstico por linha.
pub fn formatar_arquivo(
    indice: usize,
    total: usize,
    caminho: &str,
    rel: &Relatorio,
    idiomas: &Idiomas,
    l: &str,
) -> (r: String)
    ensures
        r@ == bloco_arquivo(idiomas@, indice as nat, total as nat, caminho@, rel@, l@),
{
    let mut s = String::from_str("[");
    s.append(decimal_exec(indice).as_str());
    s.append("/");
    s.append(decimal_exec(total).as_str());
    s.append("] ");
    s.append(caminho);
    s.append("\n");
    s.append(linha_id_exec(idiomas, l, rel).as_str());
    s.append(linha_tipo_exec(idiomas, l, rel).as_str());
    s.append(linha_estado_exec(idiomas, l, rel).as_str());
    s.append(linhas_diags_exec(idiomas, l, rel).as_str());
    s.append("\n");
    s
}

/// O idioma em que um arquivo é relatado: no modo `auto`, o que ele
/// declara (ou o do ambiente, se não declara), caindo no de reserva se
/// não há catálogo; fora dele, o idioma geral.
pub open spec fn idioma_do_arquivo(id: Seq<(Seq<char>, CatalogoV)>, cfg: ConfigV, rel: RelatorioV) -> Seq<char> {
    if cfg.auto {
        let pedido = match rel.idioma {
            Some(i) => i,
            None => cfg.padrao,
        };
        if buscar(id, pedido) is Some {
            pedido
        } else {
            FALLBACK@
        }
    } else {
        cfg.l_geral
    }
}

/// Os blocos dos arquivos, numerados a partir de 1.
pub open spec fn blocos(id: Seq<(Seq<char>, CatalogoV)>, cfg: ConfigV, rs: Seq<(Seq<char>, RelatorioV)>, total: nat) -> Seq<char>
    decreases rs.len(),
{
    if rs.len() == 0 {
        Seq::empty()
    } else {
        blocos(id, cfg, rs.drop_last(), total) + bloco_arquivo(
            id,
            rs.len(),
            total,
            rs.last().0,
            rs.last().1,
            idioma_do_arquivo(id, cfg, rs.last().1),
        )
    }
}

/// Quantos relatórios são válidos.
pub open spec fn validos(rs: Seq<(Seq<char>, RelatorioV)>) -> nat
    decreases rs.len(),
{
    if rs.len() == 0 {
        0
    } else {
        validos(rs.drop_last()) + if valido_v(rs.last().1) { 1nat } else { 0nat }
    }
}

/// Total de erros de todos os relatórios.
pub open spec fn total_erros(rs: Seq<(Seq<char>, RelatorioV)>) -> nat
    decreases rs.len(),
{
    if rs.len() == 0 {
        0
    } else {
        total_erros(rs.drop_last()) + erros_v(rs.last().1)
    }
}

/// Total de avisos de todos os relatórios.
pub open spec fn total_avisos(rs: Seq<(Seq<char>, RelatorioV)>) -> nat
    decreases rs.len(),
{
    if rs.len() == 0 {
        0
    } else {
        total_avisos(rs.drop_last()) + avisos_v(rs.last().1)
    }
}

/// Cabeçalho do log: título, data, schema, versão, número de arquivos e
/// idioma (`auto` ou o idioma geral).
pub open spec fn cabecalho(id: Seq<(Seq<char>, CatalogoV)>, cfg: ConfigV, n: nat, data: Seq<char>) -> Seq<char> {
    let l = cfg.l_geral;
    rotulo(id, l, "titulo"@) + "\n"@ + linha_rotulo(id, l, "data"@, data) + linha_rotulo(id, l, "schema"@, cfg.caminho_schema)
        + linha_rotulo(id, l, "versao"@, versao_v(cfg.caminho_schema)) + linha_rotulo(id, l, "arquivos"@, decimal(n))
        + linha_rotulo(id, l, "idioma"@, if cfg.auto { "auto"@ } else { l }) + "\n"@
}

/// Resumo: arquivos, válidos, falhas, erros e avisos.
pub open spec fn resumo(id: Seq<(Seq<char>, CatalogoV)>, l: Seq<char>, rs: Seq<(Seq<char>, RelatorioV)>) -> Seq<char> {
    rotulo(id, l, "resumo"@) + "\n"@ + linha_rotulo(id, l, "arquivos"@, decimal(rs.len())) + linha_rotulo(
        id,
        l,
        "validos"@,
        decimal(validos(rs)),
    ) + linha_rotulo(id, l, "falhas"@, decimal((rs.len() - validos(rs)) as nat)) + linha_rotulo(
        id,
        l,
        "erros"@,
        decimal(total_erros(rs)),
    ) + linha_rotulo(id, l, "avisos"@, decimal(total_avisos(rs)))
}

/// O log inteiro, com a data dada no cabeçalho.
pub open spec fn log_v(id: Seq<(Seq<char>, CatalogoV)>, cfg: ConfigV, rs: Seq<(Seq<char>, RelatorioV)>, data: Seq<char>) -> Seq<char> {
    cabecalho(id, cfg, rs.len(), data) + blocos(id, cfg, rs, rs.len()) + resumo(id, cfg.l_geral, rs)
}

pub proof fn lema_totais_prefixo(rs: Seq<(Seq<char>, RelatorioV)>, i: int)
    requires
        0 <= i <= rs.len(),
    ensures
        validos(rs.take(i)) <= validos(rs),
        validos(rs) <= rs.len(),
        total_erros(rs.take(i)) <= total_erros(rs),
        total_avisos(rs.take(i)) <= total_avisos(rs),
    decreases rs.len(),
{
    if i == rs.len() {
        assert(rs.take(i) =~= rs);
        if rs.len() > 0 {
            lema_totais_prefixo(rs.drop_last(), rs.len() - 1);
        }
    } else {
        assert(rs.take(i) =~= rs.drop_last().take(i));
        lema_totais_prefixo(rs.drop_last(), i);
    }
}

fn linha_rotulo_exec(s: &mut String, idiomas: &Idiomas, l: &str, chave: &str, valor: &str)
    ensures
        final(s)@ == old(s)@ + linha_rotulo(idiomas@, l@, chave@, valor@),
{
    s.append(alinhar_exec(idiomas.rot(l, chave).as_str(), 9).as_str());
    s.append(": ");
    s.append(valor);
    s.append("\n");
}

fn cabecalho_exec(cfg: &Config, idiomas: &Idiomas, total: usize, data: &str) -> (r: String)
    ensures
        r@ == cabecalho(idiomas@, cfg@, total as nat, data@),
{
    let l = cfg.l_geral.as_str();
    let mut log = idiomas.rot(l, "titulo");
    log.append("\n");
    linha_rotulo_exec(&mut log, idiomas, l, "data", data);
    linha_rotulo_exec(&mut log, idiomas, l, "schema", cfg.caminho_schema.as_str());
    let versao = versao_do_caminho(cfg.caminho_schema.as_str());
    linha_rotulo_exec(&mut log, idiomas, l, "versao", versao.as_str());
    linha_rotulo_exec(&mut log, idiomas, l, "arquivos", decimal_exec(total).as_str());
    if cfg.auto {
        linha_rotulo_exec(&mut log, idiomas, l, "idioma", "auto");
    } else {
        linha_rotulo_exec(&mut log, idiomas, l, "idioma", l);
    }
    log.append("\n");
    log
}

/// Os blocos de todos os arquivos e as três contagens do resumo.
fn blocos_exec(cfg: &Config, resultados: &Vec<(String, Relatorio)>, idiomas: &Idiomas) -> (r: (String, usize, u128, u128))
    ensures
        r.0@ == blocos(idiomas@, cfg@, resultados_vista(resultados@), resultados@.len() as nat),
        r.1 == validos(resultados_vista(resultados@)),
        r.2 == total_erros(resultados_vista(resultados@)),
        r.3 == total_avisos(resultados_vista(resultados@)),
{
    let ghost rs = resultados_vista(resultados@);
    let ghost id = idiomas@;
    let total = resultados.len();
    let mut log = String::new();
    let mut n_validos: usize = 0;
    let mut n_erros: u128 = 0;
    let mut n_avisos: u128 = 0;
    let mut i: usize = 0;
    assert(rs.take(0) =~= Seq::<(Seq<char>, RelatorioV)>::empty());
    while i < resultados.len()
        invariant
            rs == resultados_vista(resultados@),
            rs.len() == resultados@.len(),
            total == rs.len(),
            id == idiomas@,
            0 <= i <= rs.len(),
            n_erros <= i * 0xffff_ffff_ffff_ffffu128,
            n_avisos <= i * 0xffff_ffff_ffff_ffffu128,
            log@ == blocos(id, cfg@, rs.take(i as int), total as nat),
            n_validos == validos(rs.take(i as int)),
            n_erros == total_erros(rs.take(i as int)),
            n_avisos == total_avisos(rs.take(i as int)),
        decreases rs.len() - i,
    {
        let (arquivo, rel) = &resultados[i];
        assert(rs[i as int] == (arquivo@, rel@));
        assert(rs.take(i + 1).drop_last() =~= rs.take(i as int));
        proof {
            lema_totais_prefixo(rs.take(i + 1), i as int);
        }
        if rel.valido() {
            n_validos = n_validos + 1;
        }
        let e = rel.erros();
        let a = rel.avisos();
        assert(i < 0xffff_ffff_ffff_ffffu128);
        n_erros = n_erros + e as u128;
        n_avisos = n_avisos + a as u128;
        let l_arquivo = if cfg.auto {
            match &rel.idioma {
                Some(x) => idiomas.efetivo(x.as_str()),
                None => idiomas.efetivo(cfg.padrao.as_str()),
            }
        } else {
            cfg.l_geral.clone()
        };
        assert(l_arquivo@ == idioma_do_arquivo(id, cfg@, rel@));
        let bloco = formatar_arquivo(i + 1, total, arquivo.as_str(), rel, idiomas, l_arquivo.as_str());
        log.append(bloco.as_str());
        i = i + 1;
    }
    assert(rs.take(i as int) =~= rs);
    (log, n_validos, n_erros, n_avisos)
}

fn resumo_exec(idiomas: &Idiomas, l: &str, total: usize, n_validos: usize, n_erros: u128, n_avisos: u128) -> (r: String)
    requires
        n_validos <= total,
    ensures
        r@ == rotulo(idiomas@, l@, "resumo"@) + "\n"@ + linha_rotulo(idiomas@, l@, "arquivos"@, decimal(total as nat))
            + linha_rotulo(idiomas@, l@, "validos"@, decimal(n_validos as nat)) + linha_rotulo(
            idiomas@,
            l@,
            "falhas"@,
            decimal((total - n_validos) as nat),
        ) + linha_rotulo(idiomas@, l@, "erros"@, decimal(n_erros as nat)) + linha_rotulo(
            idiomas@,
            l@,
            "avisos"@,
            decimal(n_avisos as nat),
        ),
{
    let mut log = idiomas.rot(l, "resumo");
    log.append("\n");
    linha_rotulo_exec(&mut log, idiomas, l, "arquivos", decimal_exec(total).as_str());
    linha_rotulo_exec(&mut log, idiomas, l, "validos", decimal_exec(n_validos).as_str());
    linha_rotulo_exec(&mut log, idiomas, l, "falhas", decimal_exec(total - n_validos).as_str());
    linha_rotulo_exec(&mut log, idiomas, l, "erros", decimal_u128(n_erros).as_str());
    linha_rotulo_exec(&mut log, idiomas, l, "avisos", decimal_u128(n_avisos).as_str());
    log
}

/// Monta o log com a data dada: cabeçalho, o bloco de cada arquivo (no
/// idioma que lhe cabe) e o resumo.
pub fn montar_log_em(cfg: &Config, resultados: &Vec<(String, Relatorio)>, idiomas: &Idiomas, data: &str) -> (r: String)
    ensures
        r@ == log_v(idiomas@, cfg@, resultados_vista(resultados@), data@),
{
    let ghost rs = resultados_vista(resultados@);
    let total = resultados.len();
    let mut log = cabecalho_exec(cfg, idiomas, total, data);
    let (corpo, n_validos, n_erros, n_avisos) = blocos_exec(cfg, resultados, idiomas);
    proof {
        lema_totais_prefixo(rs, 0);
    }
    log.append(corpo.as_str());
    let fim = resumo_exec(idiomas, cfg.l_geral.as_str(), total, n_validos, n_erros, n_avisos);
    log.append(fim.as_str());
    log
}

/// Chama `chrono::Local::now()` e escreve o instante com `to_rfc3339`.
/// O texto depende do relógio e do fuso do sistema: o contrato não diz
/// nada dele.
#[verifier::external_body]
fn agora_rfc3339() -> (r: String) {
    chrono::Local::now().to_rfc3339()
}

/// Cabeçalho, blocos por arquivo e resumo; a data do cabeçalho é a do
/// momento da chamada, e é a única parte que não depende só da entrada.
pub fn montar_log(cfg: &Config, resultados: &Vec<(String, Relatorio)>, idiomas: &Idiomas) -> (r: String)
    ensures
        exists|data: Seq<char>| r@ == log_v(idiomas@, cfg@, resultados_vista(resultados@), data),
{
    let data = agora_rfc3339();
    montar_log_em(cfg, resultados, idiomas, data.as_str())
}

/// Se algum arquivo falhou (teve erro): é o que decide o código de saída.
pub fn houve_erro(resultados: &Vec<(String, Relatorio)>) -> (r: bool)
    ensures
        r == exists|i: int|
            0 <= i < resultados_vista(resultados@).len() && !valido_v(#[trigger] resultados_vista(resultados@)[i].1),
{
    let ghost rs = resultados_vista(resultados@);
    let mut i: usize = 0;
    while i < resultados.len()
        invariant
            rs == resultados_vista(resultados@),
            rs.len() == resultados@.len(),
            0 <= i <= rs.len(),
            forall|j: int| 0 <= j < i ==> valido_v(#[trigger] rs[j].1),
        decreases rs.len() - i,
    {
        assert(rs[i as int].1 == resultados@[i as int].1@);
        if !resultados[i].1.valido() {
            return true;
        }
        i = i + 1;
    }
    false
}

/// Como a carga do schema termina, dado o que aconteceu ao lê-lo: erro
/// de leitura (fora), erro de interpretação (dentro) ou o schema, que vai
/// junto da versão tirada do nome do arquivo.
pub fn concluir_carga_schema(caminho: &str, etapa: Result<Result<Schema, String>, String>) -> (r: Result<(Schema, String), ErroSchema>)
    ensures
        match (etapa, r) {
            (Err(e), Err(ErroSchema::Ilegivel { caminho: c, erro })) => c@ == caminho@ && erro == e,
            (Ok(Err(e)), Err(ErroSchema::Invalido { caminho: c, erro })) => c@ == caminho@ && erro == e,
            (Ok(Ok(s)), Ok((lido, versao))) => lido == s && versao@ == versao_v(caminho@),
            _ => false,
        },
{
    match etapa {
        Err(e) => Err(ErroSchema::Ilegivel { caminho: String::from_str(caminho), erro: e }),
        Ok(Err(e)) => Err(ErroSchema::Invalido { caminho: String::from_str(caminho), erro: e }),
        Ok(Ok(s)) => Ok((s, versao_do_caminho(caminho))),
    }
}

/// O começo do log, até o lugar da data.
pub open spec fn abertura(id: Seq<(Seq<char>, CatalogoV)>, cfg: ConfigV) -> Seq<char> {
    rotulo(id, cfg.l_geral, "titulo"@) + "\n"@ + alinhar(rotulo(id, cfg.l_geral, "data"@), 9) + ": "@
}

/// O log depois da data.
pub open spec fn depois_da_data(id: Seq<(Seq<char>, CatalogoV)>, cfg: ConfigV, rs: Seq<(Seq<char>, RelatorioV)>) -> Seq<char> {
    let l = cfg.l_geral;
    "\n"@ + linha_rotulo(id, l, "schema"@, cfg.caminho_schema) + linha_rotulo(id, l, "versao"@, versao_v(cfg.caminho_schema))
        + linha_rotulo(id, l, "arquivos"@, decimal(rs.len())) + linha_rotulo(
        id,
        l,
        "idioma"@,
        if cfg.auto { "auto"@ } else { l },
    ) + "\n"@ + blocos(id, cfg, rs, rs.len()) + resumo(id, l, rs)
}

/// Mesma entrada, mesmo log, a não ser pela data: o log é sempre a mesma
/// abertura, a data e o mesmo restante.
pub proof fn lei_log_so_a_data_varia(
    id: Seq<(Seq<char>, CatalogoV)>,
    cfg: ConfigV,
    rs: Seq<(Seq<char>, RelatorioV)>,
    data: Seq<char>,
)
    ensures
        log_v(id, cfg, rs, data) == abertura(id, cfg) + data + depois_da_data(id, cfg, rs),
{
    let l = cfg.l_geral;
    lema_reagrupar(
        rotulo(id, l, "titulo"@),
        "\n"@,
        alinhar(rotulo(id, l, "data"@), 9),
        ": "@,
        data,
        linha_rotulo(id, l, "schema"@, cfg.caminho_schema),
        linha_rotulo(id, l, "versao"@, versao_v(cfg.caminho_schema)),
        linha_rotulo(id, l, "arquivos"@, decimal(rs.len())),
        linha_rotulo(id, l, "idioma"@, if cfg.auto { "auto"@ } else { l }),
        blocos(id, cfg, rs, rs.len()),
        resumo(id, l, rs),
    );
}

proof fn lema_reagrupar(
    t: Seq<char>,
    nl: Seq<char>,
    a: Seq<char>,
    sep: Seq<char>,
    d: Seq<char>,
    l2: Seq<char>,
    l3: Seq<char>,
    l4: Seq<char>,
    l5: Seq<char>,
    b: Seq<char>,
    r: Seq<char>,
)
    ensures
        t + nl + (a + sep + d + nl) + l2 + l3 + l4 + l5 + nl + b + r == (t + nl + a + sep) + d + (nl + l2 + l3 + l4 + l5 + nl + b
            + r),
{
    assert(t + nl + (a + sep + d + nl) + l2 + l3 + l4 + l5 + nl + b + r =~= (t + nl + a + sep) + d + (nl + l2 + l3 + l4 + l5 + nl
        + b + r));
}

/// A execução termina com erro exatamente quando o resumo conta alguma
/// falha: há relatório inválido se, e só se, os válidos são menos que os
/// arquivos.
pub proof fn lei_erro_sse_ha_falhas(rs: Seq<(Seq<char>, RelatorioV)>)
    ensures
        (exists|i: int| 0 <= i < rs.len() && !valido_v(#[trigger] rs[i].1)) <==> validos(rs) < rs.len(),
    decreases rs.len(),
{
    if rs.len() > 0 {
        let ini = rs.drop_last();
        lei_erro_sse_ha_falhas(ini);
        lema_totais_prefixo(ini, 0);
        if exists|i: int| 0 <= i < rs.len() && !valido_v(#[trigger] rs[i].1) {
            let i = choose|i: int| 0 <= i < rs.len() && !valido_v(#[trigger] rs[i].1);
            if i < rs.len() - 1 {
                assert(ini[i] == rs[i]);
            }
        }
        if exists|i: int| 0 <= i < ini.len() && !valido_v(#[trigger] ini[i].1) {
            let i = choose|i: int| 0 <= i < ini.len() && !valido_v(#[trigger] ini[i].1);
            assert(ini[i] == rs[i]);
        }
    }
}

/// O log depende só da entrada (configuração, relatórios, catálogos) e da
/// data: com as mesmas, o texto é o mesmo.
pub proof fn lei_log_so_depende_da_entrada_e_da_data(
    id1: Seq<(Seq<char>, CatalogoV)>,
    cfg1: ConfigV,
    rs1: Seq<(Seq<char>, RelatorioV)>,
    data1: Seq<char>,
    id2: Seq<(Seq<char>, CatalogoV)>,
    cfg2: ConfigV,
    rs2: Seq<(Seq<char>, RelatorioV)>,
    data2: Seq<char>,
)
    requires
        id1 == id2,
        cfg1 == cfg2,
        rs1 == rs2,
        data1 == data2,
    ensures
        log_v(id1, cfg1, rs1, data1) == log_v(id2, cfg2, rs2, data2),
{
}

pub open spec fn eh_valido(p: (Seq<char>, RelatorioV)) -> bool {
    valido_v(p.1)
}

proof fn lema_validos_filtro(rs: Seq<(Seq<char>, RelatorioV)>)
    ensures
        validos(rs) == rs.filter(|p: (Seq<char>, RelatorioV)| eh_valido(p)).len(),
    decreases rs.len(),
{
    reveal_with_fuel(Seq::filter, 1);
    if rs.len() > 0 {
        lema_validos_filtro(rs.drop_last());
    }
}

/// O log é o cabeçalho, o bloco de cada arquivo na ordem dada (numerado
/// a partir de 1, no idioma que lhe cabe) e o resumo, que conta os
/// arquivos, os válidos, as falhas e soma erros e avisos.
pub proof fn lei_log_em_ordem_com_resumo(
    id: Seq<(Seq<char>, CatalogoV)>,
    cfg: ConfigV,
    rs: Seq<(Seq<char>, RelatorioV)>,
    data: Seq<char>,
)
    ensures
        log_v(id, cfg, rs, data) == cabecalho(id, cfg, rs.len(), data) + blocos(id, cfg, rs, rs.len()) + resumo(id, cfg.l_geral, rs),
        blocos(id, cfg, rs.take(0), rs.len()) == Seq::<char>::empty(),
        blocos(id, cfg, rs.take(rs.len() as int), rs.len()) == blocos(id, cfg, rs, rs.len()),
        forall|j: int|
            0 <= j < rs.len() ==> #[trigger] blocos(id, cfg, rs.take(j + 1), rs.len()) == blocos(id, cfg, rs.take(j), rs.len())
                + bloco_arquivo(id, (j + 1) as nat, rs.len(), rs[j].0, rs[j].1, idioma_do_arquivo(id, cfg, rs[j].1)),
        validos(rs) == rs.filter(|p: (Seq<char>, RelatorioV)| eh_valido(p)).len(),
        validos(rs) <= rs.len(),
        resumo(id, cfg.l_geral, rs) == rotulo(id, cfg.l_geral, "resumo"@) + "\n"@ + linha_rotulo(id, cfg.l_geral, "arquivos"@, decimal(rs.len()))
            + linha_rotulo(id, cfg.l_geral, "validos"@, decimal(validos(rs))) + linha_rotulo(
            id,
            cfg.l_geral,
            "falhas"@,
            decimal((rs.len() - validos(rs)) as nat),
        ) + linha_rotulo(id, cfg.l_geral, "erros"@, decimal(total_erros(rs))) + linha_rotulo(
            id,
            cfg.l_geral,
            "avisos"@,
            decimal(total_avisos(rs)),
        ),
{
    assert(rs.take(0) =~= Seq::<(Seq<char>, RelatorioV)>::empty());
    assert(rs.take(rs.len() as int) =~= rs);
    assert forall|j: int|
        0 <= j < rs.len() implies #[trigger] blocos(id, cfg, rs.take(j + 1), rs.len()) == blocos(id, cfg, rs.take(j), rs.len())
            + bloco_arquivo(id, (j + 1) as nat, rs.len(), rs[j].0, rs[j].1, idioma_do_arquivo(id, cfg, rs[j].1)) by {
        assert(rs.take(j + 1).drop_last() =~= rs.take(j));
        assert(rs.take(j + 1).last() == rs[j]);
    }
    lema_validos_filtro(rs);
    lema_totais_prefixo(rs, 0);
}

/// A linha de veredito de todo arquivo: o rótulo de aprovação com os
/// campos reconhecidos, ou o de falha com o número de erros, e, nos dois
/// casos, o número de avisos do relatório no fim da linha.
pub proof fn lei_veredito_conta_os_avisos(id: Seq<(Seq<char>, CatalogoV)>, l: Seq<char>, rel: RelatorioV)
    ensures
        linha_estado(id, l, rel) == "         "@ + (if erros_v(rel) == 0 {
            rotulo(id, l, "ok"@) + " — "@ + plural_v(id, l, "campos-reconhecidos"@, rel.campos_reconhecidos)
        } else {
            rotulo(id, l, "falha"@) + " — "@ + plural_v(id, l, "erros"@, erros_v(rel))
        }) + (", "@ + plural_v(id, l, "avisos"@, avisos_v(rel)) + "\n"@),
{
    let avisos = ", "@ + plural_v(id, l, "avisos"@, avisos_v(rel)) + "\n"@;
    if valido_v(rel) {
        let m = rotulo(id, l, "ok"@) + " — "@ + plural_v(id, l, "campos-reconhecidos"@, rel.campos_reconhecidos);
        assert(linha_estado(id, l, rel) =~= "         "@ + m + avisos);
    } else {
        let m = rotulo(id, l, "falha"@) + " — "@ + plural_v(id, l, "erros"@, erros_v(rel));
        assert(linha_estado(id, l, rel) =~= "         "@ + m + avisos);
    }
}

} // verus!
