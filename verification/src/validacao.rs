//! Validação de um Elemento de Requisito contra o schema: resolve nomes
//! de campo pelo idioma declarado, confere os tipos dos valores, os enums
//! e os subcampos, e cobra os campos obrigatórios.

use vstd::prelude::*;

use crate::diagnostico::{
    contar, diags_v, erros_v, relatorio_vazio, valido_v, Diagnostico, DiagV, Relatorio, RelatorioV, Local, LocalV, Msg, MsgV, Nivel, CAMPO_SCHEMA_ID,
};
use crate::mapa::{buscar, inserir_ordenado, lema_mapear_buscar, lema_mapear_inserir, textos_de_mapa, vista_texto, Mapa};
use crate::schema::{DefCampo, DefValor, Schema};
use crate::texto::{aparar, aparar_exec, decimal, decimal_exec, dividir_no_primeiro, minusculas, minusculas_exec, prefixo_ate, resto_apos, textos, textos_iguais};
use crate::valor::{lema_tabela_v, ler_toml, resultado_toml_v, tabela_v, tipo_str, Valor, ValorV};

verus! {

/// Idioma de conteúdo assumido quando o locale vem vazio ou ausente.
pub const IDIOMA_PADRAO_CONTEUDO: &'static str = "en";

/// Nome canônico do campo discriminador de tipo do elemento.
pub const CAMPO_TIPO: &'static str = "tipo";

pub open spec fn erro_v(local: LocalV, msg: MsgV) -> DiagV {
    DiagV { nivel: Nivel::Erro, local, msg }
}

pub open spec fn aviso_v(local: LocalV, msg: MsgV) -> DiagV {
    DiagV { nivel: Nivel::Aviso, local, msg }
}

/// Os nomes de um campo por idioma.
pub open spec fn alias_v(d: DefCampo) -> Seq<(Seq<char>, Seq<char>)> {
    textos_de_mapa(d.alias)
}

/// Caminho de um campo: na raiz o prefixo é vazio e o caminho é a chave.
pub open spec fn juntar_v(prefixo: Seq<char>, chave: Seq<char>) -> Seq<char> {
    if prefixo.len() == 0 {
        chave
    } else {
        prefixo + "."@ + chave
    }
}

pub fn juntar(prefixo: &str, chave: &str) -> (r: String)
    ensures
        r@ == juntar_v(prefixo@, chave@),
{
    if prefixo.unicode_len() == 0 {
        String::from_str(chave)
    } else {
        let mut r = String::from_str(prefixo);
        r.append(".");
        r.append(chave);
        r
    }
}

/// Primeiro valor da tabela sob a chave.
fn buscar_tabela<'a>(tabela: &'a Vec<(String, Valor)>, chave: &str) -> (r: Option<&'a Valor>)
    ensures
        match r {
            Some(v) => buscar(tabela_v(tabela@), chave@) == Some(v@),
            None => buscar(tabela_v(tabela@), chave@) is None,
        },
{
    let ghost t = tabela_v(tabela@);
    proof {
        lema_tabela_v(tabela@);
    }
    let mut i: usize = 0;
    assert(t.skip(0) =~= t);
    while i < tabela.len()
        invariant
            t == tabela_v(tabela@),
            t.len() == tabela@.len(),
            forall|j: int| 0 <= j < t.len() ==> #[trigger] t[j] == (tabela@[j].0@, tabela@[j].1@),
            0 <= i <= t.len(),
            buscar(t, chave@) == buscar(t.skip(i as int), chave@),
        decreases t.len() - i,
    {
        assert(t.skip(i as int)[0] == t[i as int]);
        if textos_iguais(tabela[i].0.as_str(), chave) {
            return Some(&tabela[i].1);
        }
        assert(t.skip(i as int).drop_first() =~= t.skip(i + 1));
        i = i + 1;
    }
    None
}

/// Leitura de campo de texto obrigatório: presente e texto, presente com o
/// tipo errado, ausente (com a mensagem dada pelo chamador).
pub open spec fn ler_campo_texto_v(t: Seq<(Seq<char>, ValorV)>, chave: Seq<char>, ausente: MsgV) -> Result<Seq<char>, DiagV> {
    match buscar(t, chave) {
        Some(ValorV::Texto(s)) => Ok(s),
        Some(outro) => Err(erro_v(LocalV::Campo(chave), MsgV::EsperadoTexto(tipo_str(outro)))),
        None => Err(erro_v(LocalV::Campo(chave), ausente)),
    }
}

pub fn ler_campo_texto(tabela: &Vec<(String, Valor)>, chave: &str, ausente: Msg) -> (r: Result<String, Diagnostico>)
    ensures
        match r {
            Ok(s) => ler_campo_texto_v(tabela_v(tabela@), chave@, ausente@) == Ok::<Seq<char>, DiagV>(s@),
            Err(d) => ler_campo_texto_v(tabela_v(tabela@), chave@, ausente@) == Err::<Seq<char>, DiagV>(d@),
        },
{
    match buscar_tabela(tabela, chave) {
        Some(v) => match v.as_str() {
            Some(s) => Ok(s.clone()),
            None => Err(Diagnostico::erro(Local::Campo(String::from_str(chave)), Msg::EsperadoTexto(v.type_str()))),
        },
        None => Err(Diagnostico::erro(Local::Campo(String::from_str(chave)), ausente)),
    }
}

/// Divide "<versao>;<locale>" em (versão, idioma-base). Sem ";" ou com
/// locale vazio, o idioma é "en"; de "pt_BR" usa-se apenas "pt".
pub open spec fn interpretar_schema_id_v(bruto: Seq<char>) -> (Seq<char>, Seq<char>) {
    let versao = aparar(prefixo_ate(bruto, seq![';']));
    let locale = aparar(
        match resto_apos(bruto, seq![';']) {
            Some(r) => r,
            None => Seq::empty(),
        },
    );
    let idioma = if locale.len() == 0 {
        IDIOMA_PADRAO_CONTEUDO@
    } else {
        let base = prefixo_ate(locale, seq!['_', '-']);
        if base.len() == 0 {
            IDIOMA_PADRAO_CONTEUDO@
        } else {
            minusculas(base)
        }
    };
    (versao, idioma)
}

pub fn interpretar_schema_id(bruto: &str) -> (r: (String, String))
    ensures
        (r.0@, r.1@) == interpretar_schema_id_v(bruto@),
{
    let mut ponto_e_virgula: Vec<char> = Vec::new();
    ponto_e_virgula.push(';');
    let (antes, depois) = dividir_no_primeiro(bruto, &ponto_e_virgula);
    assert(ponto_e_virgula@ =~= seq![';']);
    let versao = aparar_exec(antes.as_str());
    let locale = match depois {
        Some(d) => aparar_exec(d.as_str()),
        None => {
            let vazio = String::new();
            aparar_exec(vazio.as_str())
        },
    };
    proof {
        let vazio = Seq::<char>::empty();
        assert(aparar(vazio) =~= vazio);
    }
    let idioma = if locale.unicode_len() == 0 {
        String::from_str(IDIOMA_PADRAO_CONTEUDO)
    } else {
        let mut seps: Vec<char> = Vec::new();
        seps.push('_');
        seps.push('-');
        assert(seps@ =~= seq!['_', '-']);
        let (base, _) = dividir_no_primeiro(locale.as_str(), &seps);
        if base.unicode_len() == 0 {
            String::from_str(IDIOMA_PADRAO_CONTEUDO)
        } else {
            minusculas_exec(base.as_str())
        }
    };
    (versao, idioma)
}

} // verus!

verus! {

pub open spec fn alias_valor_v(d: DefValor) -> Seq<(Seq<char>, Seq<char>)> {
    textos_de_mapa(d.alias)
}

/// O valor canônico do enum cujo nome no idioma é `bruto` (o primeiro, em
/// ordem de valor canônico).
pub open spec fn resolver_enum_v(valores: Seq<(Seq<char>, DefValor)>, bruto: Seq<char>, idioma: Seq<char>) -> Option<Seq<char>>
    decreases valores.len(),
{
    if valores.len() == 0 {
        None
    } else if buscar(alias_valor_v(valores[0].1), idioma) == Some(bruto) {
        Some(valores[0].0)
    } else {
        resolver_enum_v(valores.drop_first(), bruto, idioma)
    }
}

/// Converte o valor escrito no arquivo para o valor canônico do enum.
pub fn resolver_enum(def: &DefCampo, bruto: &str, idioma: &str) -> (r: Option<String>)
    ensures
        match r {
            Some(c) => resolver_enum_v(def.valores.entradas(), bruto@, idioma@) == Some(c@),
            None => resolver_enum_v(def.valores.entradas(), bruto@, idioma@) is None,
        },
{
    let ghost vs = def.valores.entradas();
    let mut i: usize = 0;
    assert(vs.skip(0) =~= vs);
    while i < def.valores.len()
        invariant
            vs == def.valores.entradas(),
            0 <= i <= vs.len(),
            resolver_enum_v(vs, bruto@, idioma@) == resolver_enum_v(vs.skip(i as int), bruto@, idioma@),
        decreases vs.len() - i,
    {
        let (canonico, v) = def.valores.entrada(i);
        assert(vs.skip(i as int)[0] == vs[i as int]);
        assert(vs.skip(i as int).drop_first() =~= vs.skip(i + 1));
        proof {
            lema_mapear_buscar(v.alias.entradas(), idioma@, vista_texto());
        }
        match v.alias.get(idioma) {
            Some(a) => {
                if textos_iguais(a.as_str(), bruto) {
                    return Some(canonico.clone());
                }
            },
            None => {},
        }
        i = i + 1;
    }
    None
}

/// Nomes do enum no idioma, em ordem de valor canônico.
pub open spec fn permitidos_v(valores: Seq<(Seq<char>, DefValor)>, idioma: Seq<char>) -> Seq<Seq<char>>
    decreases valores.len(),
{
    if valores.len() == 0 {
        Seq::empty()
    } else {
        permitidos_v(valores.drop_last(), idioma) + match buscar(alias_valor_v(valores.last().1), idioma) {
            Some(a) => seq![a],
            None => Seq::empty(),
        }
    }
}

/// Primeiro idioma (diferente do declarado) em que o nome é `bruto`.
pub open spec fn idioma_do_nome(nomes: Seq<(Seq<char>, Seq<char>)>, bruto: Seq<char>, idioma: Seq<char>) -> Option<Seq<char>>
    decreases nomes.len(),
{
    if nomes.len() == 0 {
        None
    } else if nomes[0].0 != idioma && nomes[0].1 == bruto {
        Some(nomes[0].0)
    } else {
        idioma_do_nome(nomes.drop_first(), bruto, idioma)
    }
}

/// O valor existe, mas em outro idioma? (canônico, idioma do nome).
pub open spec fn em_outro_idioma_v(valores: Seq<(Seq<char>, DefValor)>, bruto: Seq<char>, idioma: Seq<char>) -> Option<(Seq<char>, Seq<char>)>
    decreases valores.len(),
{
    if valores.len() == 0 {
        None
    } else {
        match idioma_do_nome(alias_valor_v(valores[0].1), bruto, idioma) {
            Some(lang) => Some((valores[0].0, lang)),
            None => em_outro_idioma_v(valores.drop_first(), bruto, idioma),
        }
    }
}

pub open spec fn msg_enum_invalido_v(def: DefCampo, bruto: Seq<char>, idioma: Seq<char>) -> MsgV {
    MsgV::EnumInvalido {
        valor: bruto,
        idioma: idioma,
        permitidos: permitidos_v(def.valores.entradas(), idioma),
        em_outro_idioma: em_outro_idioma_v(def.valores.entradas(), bruto, idioma),
    }
}

fn idioma_do_nome_exec(nomes: &Mapa<String>, bruto: &str, idioma: &str) -> (r: Option<String>)
    ensures
        match r {
            Some(l) => idioma_do_nome(textos_de_mapa(*nomes), bruto@, idioma@) == Some(l@),
            None => idioma_do_nome(textos_de_mapa(*nomes), bruto@, idioma@) is None,
        },
{
    let ghost ns = textos_de_mapa(*nomes);
    let mut i: usize = 0;
    assert(ns.skip(0) =~= ns);
    while i < nomes.len()
        invariant
            ns == textos_de_mapa(*nomes),
            ns.len() == nomes.entradas().len(),
            0 <= i <= ns.len(),
            idioma_do_nome(ns, bruto@, idioma@) == idioma_do_nome(ns.skip(i as int), bruto@, idioma@),
        decreases ns.len() - i,
    {
        let (lang, nome) = nomes.entrada(i);
        assert(ns.skip(i as int)[0] == ns[i as int]);
        assert(ns[i as int] == (lang@, nome@));
        assert(ns.skip(i as int).drop_first() =~= ns.skip(i + 1));
        if !textos_iguais(lang.as_str(), idioma) && textos_iguais(nome.as_str(), bruto) {
            return Some(lang.clone());
        }
        i = i + 1;
    }
    None
}

fn em_outro_idioma_exec(def: &DefCampo, bruto: &str, idioma: &str) -> (r: Option<(String, String)>)
    ensures
        match r {
            Some(p) => em_outro_idioma_v(def.valores.entradas(), bruto@, idioma@) == Some((p.0@, p.1@)),
            None => em_outro_idioma_v(def.valores.entradas(), bruto@, idioma@) is None,
        },
{
    let ghost vs = def.valores.entradas();
    let mut j: usize = 0;
    assert(vs.skip(0) =~= vs);
    while j < def.valores.len()
        invariant
            vs == def.valores.entradas(),
            0 <= j <= vs.len(),
            em_outro_idioma_v(vs, bruto@, idioma@) == em_outro_idioma_v(vs.skip(j as int), bruto@, idioma@),
        decreases vs.len() - j,
    {
        let (canonico, v) = def.valores.entrada(j);
        assert(vs.skip(j as int)[0] == vs[j as int]);
        assert(vs.skip(j as int).drop_first() =~= vs.skip(j + 1));
        match idioma_do_nome_exec(&v.alias, bruto, idioma) {
            Some(lang) => {
                return Some((canonico.clone(), lang));
            },
            None => {},
        }
        j = j + 1;
    }
    None
}

pub fn msg_enum_invalido(def: &DefCampo, bruto: &str, idioma: &str) -> (r: Msg)
    ensures
        r@ == msg_enum_invalido_v(*def, bruto@, idioma@),
{
    let ghost vs = def.valores.entradas();
    let mut permitidos: Vec<String> = Vec::new();
    let mut i: usize = 0;
    while i < def.valores.len()
        invariant
            vs == def.valores.entradas(),
            0 <= i <= vs.len(),
            textos(permitidos@) == permitidos_v(vs.take(i as int), idioma@),
        decreases vs.len() - i,
    {
        let (_, v) = def.valores.entrada(i);
        assert(vs.take(i + 1).drop_last() =~= vs.take(i as int));
        assert(vs.take(i + 1).last() == vs[i as int]);
        proof {
            lema_mapear_buscar(v.alias.entradas(), idioma@, vista_texto());
        }
        let ghost antes = permitidos@;
        match v.alias.get(idioma) {
            Some(a) => {
                permitidos.push(a.clone());
                assert(textos(permitidos@) =~= textos(antes) + seq![a@]);
            },
            None => {
                assert(textos(antes) + Seq::<Seq<char>>::empty() =~= textos(antes));
            },
        }
        i = i + 1;
    }
    assert(vs.take(i as int) =~= vs);
    let em_outro = em_outro_idioma_exec(def, bruto, idioma);
    Msg::EnumInvalido {
        valor: String::from_str(bruto),
        idioma: String::from_str(idioma),
        permitidos,
        em_outro_idioma: em_outro,
    }
}

} // verus!

verus! {

/// Uma lista de campos (nome canônico, definição), com o nome como texto.
pub open spec fn lista_campos(l: Seq<(String, &DefCampo)>) -> Seq<(Seq<char>, DefCampo)> {
    l.map_values(|e: (String, &DefCampo)| (e.0@, *e.1))
}

/// Primeiro idioma em que o nome é `chave`.
pub open spec fn idioma_de_nome(nomes: Seq<(Seq<char>, Seq<char>)>, chave: Seq<char>) -> Option<Seq<char>>
    decreases nomes.len(),
{
    if nomes.len() == 0 {
        None
    } else if nomes[0].1 == chave {
        Some(nomes[0].0)
    } else {
        idioma_de_nome(nomes.drop_first(), chave)
    }
}

/// Nome em qualquer idioma → (canônico, idioma): o primeiro encontrado,
/// percorrendo os campos e, em cada um, os idiomas em ordem.
pub open spec fn global_v(campos: Seq<(Seq<char>, DefCampo)>, chave: Seq<char>) -> Option<(Seq<char>, Seq<char>)>
    decreases campos.len(),
{
    if campos.len() == 0 {
        None
    } else {
        match idioma_de_nome(alias_v(campos[0].1), chave) {
            Some(lang) => Some((campos[0].0, lang)),
            None => global_v(campos.drop_first(), chave),
        }
    }
}

fn idioma_de_nome_exec(nomes: &Mapa<String>, chave: &str) -> (r: Option<String>)
    ensures
        match r {
            Some(l) => idioma_de_nome(textos_de_mapa(*nomes), chave@) == Some(l@),
            None => idioma_de_nome(textos_de_mapa(*nomes), chave@) is None,
        },
{
    let ghost ns = textos_de_mapa(*nomes);
    let mut i: usize = 0;
    assert(ns.skip(0) =~= ns);
    while i < nomes.len()
        invariant
            ns == textos_de_mapa(*nomes),
            ns.len() == nomes.entradas().len(),
            0 <= i <= ns.len(),
            idioma_de_nome(ns, chave@) == idioma_de_nome(ns.skip(i as int), chave@),
        decreases ns.len() - i,
    {
        let (lang, nome) = nomes.entrada(i);
        assert(ns.skip(i as int)[0] == ns[i as int]);
        assert(ns[i as int] == (lang@, nome@));
        assert(ns.skip(i as int).drop_first() =~= ns.skip(i + 1));
        if textos_iguais(nome.as_str(), chave) {
            return Some(lang.clone());
        }
        i = i + 1;
    }
    None
}

/// Busca de um nome de campo em qualquer idioma; serve só para dizer ao
/// autor que misturou idiomas.
fn buscar_global(campos: &Vec<(String, &DefCampo)>, chave: &str) -> (r: Option<(String, String)>)
    ensures
        match r {
            Some(p) => global_v(lista_campos(campos@), chave@) == Some((p.0@, p.1@)),
            None => global_v(lista_campos(campos@), chave@) is None,
        },
{
    let ghost cs = lista_campos(campos@);
    let mut i: usize = 0;
    assert(cs.skip(0) =~= cs);
    while i < campos.len()
        invariant
            cs == lista_campos(campos@),
            0 <= i <= cs.len(),
            global_v(cs, chave@) == global_v(cs.skip(i as int), chave@),
        decreases cs.len() - i,
    {
        assert(cs.skip(i as int)[0] == cs[i as int]);
        assert(cs[i as int] == (campos@[i as int].0@, *campos@[i as int].1));
        assert(cs.skip(i as int).drop_first() =~= cs.skip(i + 1));
        match idioma_de_nome_exec(&campos[i].1.alias, chave) {
            Some(lang) => {
                return Some((campos[i].0.clone(), lang));
            },
            None => {},
        }
        i = i + 1;
    }
    None
}

/// Nome no idioma declarado → nome canônico, mais os avisos de schema
/// (nome ambíguo, campo sem nome no idioma).
pub open spec fn montar_reverso_v(campos: Seq<(Seq<char>, DefCampo)>, idioma: Seq<char>) -> (Seq<(Seq<char>, Seq<char>)>, Seq<DiagV>)
    decreases campos.len(),
{
    if campos.len() == 0 {
        (Seq::empty(), Seq::empty())
    } else {
        let (m, d) = montar_reverso_v(campos.drop_last(), idioma);
        let canonico = campos.last().0;
        match buscar(alias_v(campos.last().1), idioma) {
            Some(a) => (
                inserir_ordenado(m, a, canonico),
                d + match buscar(m, a) {
                    Some(anterior) => seq![aviso_v(LocalV::Schema, MsgV::AliasAmbiguo { alias: a, idioma, anterior, atual: canonico })],
                    None => Seq::empty(),
                },
            ),
            None => (m, d + seq![aviso_v(LocalV::Schema, MsgV::SemAliasNoIdioma { canonico, idioma })]),
        }
    }
}

fn montar_reverso(campos: &Vec<(String, &DefCampo)>, idioma: &str, diags: &mut Vec<Diagnostico>) -> (r: Mapa<String>)
    ensures
        textos_de_mapa(r) == montar_reverso_v(lista_campos(campos@), idioma@).0,
        diags_v(final(diags)@) == diags_v(old(diags)@) + montar_reverso_v(lista_campos(campos@), idioma@).1,
{
    let ghost cs = lista_campos(campos@);
    let ghost d0 = diags_v(diags@);
    let mut m: Mapa<String> = Mapa::novo();
    let mut i: usize = 0;
    assert(cs.take(0) =~= Seq::<(Seq<char>, DefCampo)>::empty());
    assert(d0 + Seq::<DiagV>::empty() =~= d0);
    while i < campos.len()
        invariant
            cs == lista_campos(campos@),
            0 <= i <= cs.len(),
            textos_de_mapa(m) == montar_reverso_v(cs.take(i as int), idioma@).0,
            diags_v(diags@) == d0 + montar_reverso_v(cs.take(i as int), idioma@).1,
        decreases cs.len() - i,
    {
        let (canonico, def) = &campos[i];
        assert(cs[i as int] == (canonico@, **def));
        assert(cs.take(i + 1).drop_last() =~= cs.take(i as int));
        assert(cs.take(i + 1).last() == cs[i as int]);
        proof {
            lema_mapear_buscar(def.alias.entradas(), idioma@, vista_texto());
        }
        let ghost dantes = diags_v(diags@);
        match def.alias.get(idioma) {
            Some(a) => {
                proof {
                    lema_mapear_buscar(m.entradas(), a@, vista_texto());
                    lema_mapear_inserir(m.entradas(), a@, *canonico, vista_texto());
                }
                match m.get(a.as_str()) {
                    Some(anterior) => {
                        let d = Diagnostico::aviso(
                            Local::Schema,
                            Msg::AliasAmbiguo {
                                alias: a.clone(),
                                idioma: String::from_str(idioma),
                                anterior: anterior.clone(),
                                atual: canonico.clone(),
                            },
                        );
                        diags.push(d);
                        assert(diags_v(diags@) =~= dantes.push(d@));
                    },
                    None => {
                        assert(dantes + Seq::<DiagV>::empty() =~= dantes);
                    },
                }
                m.inserir(a.clone(), canonico.clone());
            },
            None => {
                let d = Diagnostico::aviso(
                    Local::Schema,
                    Msg::SemAliasNoIdioma { canonico: canonico.clone(), idioma: String::from_str(idioma) },
                );
                diags.push(d);
                assert(diags_v(diags@) =~= dantes.push(d@));
            },
        }
        i = i + 1;
    }
    assert(cs.take(i as int) =~= cs);
    m
}

} // verus!

verus! {

/// `schema_id` é o campo fixo de bootstrap: só existe na raiz, lido antes.
pub open spec fn entrada_ignorada(chave: Seq<char>, subcampo: bool) -> bool {
    !subcampo && chave == CAMPO_SCHEMA_ID@
}

/// Caminho do `i`-ésimo item de uma lista: "local[i]".
pub open spec fn local_item(local: Seq<char>, i: nat) -> Seq<char> {
    local + "["@ + decimal(i) + "]"@
}

/// Mensagem para chave que não é nome de campo no idioma declarado: se é
/// nome em outro idioma, diz qual; senão, campo desconhecido.
pub open spec fn msg_desconhecido_v(campos: Seq<(Seq<char>, DefCampo)>, chave: Seq<char>, idioma: Seq<char>, subcampo: bool) -> MsgV {
    match global_v(campos, chave) {
        Some(p) => if p.1 != idioma {
            MsgV::AliasDeOutroIdioma { canonico: p.0, idioma_do_alias: p.1, idioma_declarado: idioma, subcampo }
        } else {
            MsgV::CampoDesconhecido { idioma, subcampo }
        },
        None => MsgV::CampoDesconhecido { idioma, subcampo },
    }
}

/// Lista obrigatória vazia.
pub open spec fn vazia_obrigatoria_v(def: DefCampo, n: nat, local: Seq<char>) -> Seq<DiagV> {
    if def.obrigatorio && n == 0 {
        seq![erro_v(LocalV::Campo(local), MsgV::ListaVaziaObrigatoria)]
    } else {
        Seq::empty()
    }
}

/// Cada item que não é texto numa lista de textos.
pub open spec fn itens_texto_v(itens: Seq<ValorV>, local: Seq<char>) -> Seq<DiagV>
    decreases itens.len(),
{
    if itens.len() == 0 {
        Seq::empty()
    } else {
        let i = (itens.len() - 1) as nat;
        itens_texto_v(itens.drop_last(), local) + if itens.last() is Texto {
            Seq::empty()
        } else {
            seq![erro_v(LocalV::Campo(local_item(local, i)), MsgV::EsperadoTexto(tipo_str(itens.last())))]
        }
    }
}

/// Os campos de uma lista (nome, definição) como pares de texto e definição.
pub open spec fn vec_campos(l: Seq<(String, DefCampo)>) -> Seq<(Seq<char>, DefCampo)> {
    l.map_values(|e: (String, DefCampo)| (e.0@, e.1))
}

/// Diagnósticos de um valor segundo o tipo de dado do campo.
pub open spec fn validar_valor_v(def: DefCampo, v: ValorV, idioma: Seq<char>, local: Seq<char>) -> Seq<DiagV>
    decreases v, 2nat,
{
    let td = def.tipo_dado@;
    if td == "string"@ || td == "string_markdown"@ {
        if v is Texto {
            Seq::empty()
        } else {
            seq![erro_v(LocalV::Campo(local), MsgV::EsperadoTexto(tipo_str(v)))]
        }
    } else if td == "array<string>"@ {
        match v {
            ValorV::Lista(itens) => vazia_obrigatoria_v(def, itens.len(), local) + itens_texto_v(itens, local),
            _ => seq![erro_v(LocalV::Campo(local), MsgV::EsperadoListaTextos(tipo_str(v)))],
        }
    } else if td == "enum"@ {
        match v {
            ValorV::Texto(s) => if resolver_enum_v(def.valores.entradas(), s, idioma) is Some {
                Seq::empty()
            } else {
                seq![erro_v(LocalV::Campo(local), msg_enum_invalido_v(def, s, idioma))]
            },
            _ => seq![erro_v(LocalV::Campo(local), MsgV::EsperadoTexto(tipo_str(v)))],
        }
    } else if td == "array<tabela>"@ {
        match v {
            ValorV::Lista(itens) => vazia_obrigatoria_v(def, itens.len(), local)
                + itens_tabela_v(vec_campos(def.subcampos@), itens, idioma, local),
            _ => seq![erro_v(LocalV::Campo(local), MsgV::EsperadoListaTabelas(tipo_str(v)))],
        }
    } else {
        seq![aviso_v(LocalV::Campo(local), MsgV::TipoDadoDesconhecido(td))]
    }
}

/// Cada item de uma lista de tabelas: tabela validada pelos subcampos, ou
/// erro de tipo.
pub open spec fn itens_tabela_v(subcampos: Seq<(Seq<char>, DefCampo)>, itens: Seq<ValorV>, idioma: Seq<char>, local: Seq<char>) -> Seq<DiagV>
    decreases itens, 1nat,
{
    if itens.len() == 0 {
        Seq::empty()
    } else {
        let i = (itens.len() - 1) as nat;
        let li = local_item(local, i);
        itens_tabela_v(subcampos, itens.drop_last(), idioma, local) + match itens[itens.len() - 1] {
            ValorV::Tabela(t) => validar_subtabela_v(subcampos, t, idioma, li),
            outro => seq![erro_v(LocalV::Campo(li), MsgV::EsperadoTabela(tipo_str(outro)))],
        }
    }
}

/// Subtabela: sem subcampos no schema não há o que validar (aviso).
pub open spec fn validar_subtabela_v(subcampos: Seq<(Seq<char>, DefCampo)>, t: Seq<(Seq<char>, ValorV)>, idioma: Seq<char>, local: Seq<char>) -> Seq<DiagV>
    decreases t, 3nat,
{
    if subcampos.len() == 0 {
        seq![aviso_v(LocalV::Campo(local), MsgV::SemSubcampos)]
    } else {
        validar_campos_v(subcampos, t, idioma, local, true).1
    }
}

/// Diagnósticos das entradas da tabela, uma a uma.
pub open spec fn entradas_v(
    campos: Seq<(Seq<char>, DefCampo)>,
    reverso: Seq<(Seq<char>, Seq<char>)>,
    entradas: Seq<(Seq<char>, ValorV)>,
    idioma: Seq<char>,
    prefixo: Seq<char>,
    subcampo: bool,
) -> Seq<DiagV>
    decreases entradas, 1nat,
{
    if entradas.len() == 0 {
        Seq::empty()
    } else {
        let e = entradas[entradas.len() - 1];
        let local = juntar_v(prefixo, e.0);
        entradas_v(campos, reverso, entradas.drop_last(), idioma, prefixo, subcampo) + if entrada_ignorada(e.0, subcampo) {
            Seq::empty()
        } else {
            match buscar(reverso, e.0) {
                Some(canonico) => match buscar(campos, canonico) {
                    Some(def) => validar_valor_v(def, e.1, idioma, local),
                    None => Seq::empty(),
                },
                None => seq![erro_v(LocalV::Campo(local), msg_desconhecido_v(campos, e.0, idioma, subcampo))],
            }
        }
    }
}

/// Quantas entradas têm nome de campo no idioma declarado.
pub open spec fn reconhecidos_v(reverso: Seq<(Seq<char>, Seq<char>)>, entradas: Seq<(Seq<char>, ValorV)>, subcampo: bool) -> nat
    decreases entradas.len(),
{
    if entradas.len() == 0 {
        0
    } else {
        let e = entradas.last();
        reconhecidos_v(reverso, entradas.drop_last(), subcampo) + if !entrada_ignorada(e.0, subcampo) && buscar(reverso, e.0) is Some {
            1nat
        } else {
            0nat
        }
    }
}

/// Os nomes canônicos vistos nas entradas.
pub open spec fn vistos_v(reverso: Seq<(Seq<char>, Seq<char>)>, entradas: Seq<(Seq<char>, ValorV)>, subcampo: bool) -> Seq<Seq<char>>
    decreases entradas.len(),
{
    if entradas.len() == 0 {
        Seq::empty()
    } else {
        let e = entradas.last();
        vistos_v(reverso, entradas.drop_last(), subcampo) + if entrada_ignorada(e.0, subcampo) {
            Seq::empty()
        } else {
            match buscar(reverso, e.0) {
                Some(c) => seq![c],
                None => Seq::empty(),
            }
        }
    }
}

/// Erro para cada campo obrigatório não visto, no nome do idioma (ou no
/// canônico, se o campo não tem nome no idioma).
pub open spec fn obrigatorios_v(campos: Seq<(Seq<char>, DefCampo)>, vistos: Seq<Seq<char>>, idioma: Seq<char>, prefixo: Seq<char>, subcampo: bool) -> Seq<DiagV>
    decreases campos.len(),
{
    if campos.len() == 0 {
        Seq::empty()
    } else {
        let (canonico, def) = campos.last();
        obrigatorios_v(campos.drop_last(), vistos, idioma, prefixo, subcampo) + if def.obrigatorio && !vistos.contains(canonico) {
            let nome = match buscar(alias_v(def), idioma) {
                Some(n) => n,
                None => canonico,
            };
            seq![erro_v(LocalV::Campo(juntar_v(prefixo, nome)), MsgV::ObrigatorioAusente { canonico, subcampo })]
        } else {
            Seq::empty()
        }
    }
}

/// Os nomes canônicos dos campos reconhecidos numa tabela, na ordem das
/// entradas: o conjunto dos campos vistos.
pub open spec fn vistos_de(campos: Seq<(Seq<char>, DefCampo)>, tabela: Seq<(Seq<char>, ValorV)>, idioma: Seq<char>, subcampo: bool) -> Seq<Seq<char>> {
    vistos_v(montar_reverso_v(campos, idioma).0, tabela, subcampo)
}

/// Validação de uma tabela (a raiz do arquivo ou um item de subtabela):
/// avisos do schema, diagnóstico de cada entrada e obrigatórios ausentes.
/// Devolve também quantas entradas foram reconhecidas.
pub open spec fn validar_campos_v(
    campos: Seq<(Seq<char>, DefCampo)>,
    tabela: Seq<(Seq<char>, ValorV)>,
    idioma: Seq<char>,
    prefixo: Seq<char>,
    subcampo: bool,
) -> (nat, Seq<DiagV>)
    decreases tabela, 2nat,
{
    let (reverso, d1) = montar_reverso_v(campos, idioma);
    let d2 = entradas_v(campos, reverso, tabela, idioma, prefixo, subcampo);
    let d3 = obrigatorios_v(campos, vistos_v(reverso, tabela, subcampo), idioma, prefixo, subcampo);
    (reconhecidos_v(reverso, tabela, subcampo), d1 + d2 + d3)
}

} // verus!

verus! {

/// Referências às definições de uma lista de campos.
pub fn campos_de_vec<'a>(v: &'a Vec<(String, DefCampo)>) -> (r: Vec<(String, &'a DefCampo)>)
    ensures
        lista_campos(r@) == vec_campos(v@),
{
    let mut r: Vec<(String, &'a DefCampo)> = Vec::new();
    let mut i: usize = 0;
    while i < v.len()
        invariant
            0 <= i <= v@.len(),
            lista_campos(r@) == vec_campos(v@).take(i as int),
        decreases v@.len() - i,
    {
        let ghost antes = r@;
        r.push((v[i].0.clone(), &v[i].1));
        assert(lista_campos(r@) =~= lista_campos(antes).push(vec_campos(v@)[i as int]));
        i = i + 1;
        assert(lista_campos(r@) =~= vec_campos(v@).take(i as int));
    }
    assert(vec_campos(v@).take(i as int) =~= vec_campos(v@));
    r
}

/// A definição do campo de nome canônico dado.
fn buscar_campo<'a>(campos: &Vec<(String, &'a DefCampo)>, k: &str) -> (r: Option<&'a DefCampo>)
    ensures
        match r {
            Some(d) => buscar(lista_campos(campos@), k@) == Some(*d),
            None => buscar(lista_campos(campos@), k@) is None,
        },
{
    let ghost cs = lista_campos(campos@);
    let mut i: usize = 0;
    assert(cs.skip(0) =~= cs);
    while i < campos.len()
        invariant
            cs == lista_campos(campos@),
            0 <= i <= cs.len(),
            buscar(cs, k@) == buscar(cs.skip(i as int), k@),
        decreases cs.len() - i,
    {
        assert(cs.skip(i as int)[0] == cs[i as int]);
        assert(cs[i as int] == (campos@[i as int].0@, *campos@[i as int].1));
        assert(cs.skip(i as int).drop_first() =~= cs.skip(i + 1));
        if textos_iguais(campos[i].0.as_str(), k) {
            return Some(campos[i].1);
        }
        i = i + 1;
    }
    None
}

fn contem_texto(v: &Vec<String>, k: &str) -> (r: bool)
    ensures
        r == textos(v@).contains(k@),
{
    let mut i: usize = 0;
    while i < v.len()
        invariant
            0 <= i <= v@.len(),
            forall|j: int| 0 <= j < i ==> textos(v@)[j] != k@,
        decreases v@.len() - i,
    {
        if textos_iguais(v[i].as_str(), k) {
            assert(textos(v@)[i as int] == k@);
            return true;
        }
        i = i + 1;
    }
    false
}

fn local_item_exec(local: &str, i: usize) -> (r: String)
    ensures
        r@ == local_item(local@, i as nat),
{
    let mut r = String::from_str(local);
    r.append("[");
    let d = decimal_exec(i);
    r.append(d.as_str());
    r.append("]");
    r
}

fn msg_desconhecido(campos: &Vec<(String, &DefCampo)>, chave: &str, idioma: &str, subcampo: bool) -> (r: Msg)
    ensures
        r@ == msg_desconhecido_v(lista_campos(campos@), chave@, idioma@, subcampo),
{
    match buscar_global(campos, chave) {
        Some((canonico, lang)) => {
            if !textos_iguais(lang.as_str(), idioma) {
                Msg::AliasDeOutroIdioma {
                    canonico,
                    idioma_do_alias: lang,
                    idioma_declarado: String::from_str(idioma),
                    subcampo,
                }
            } else {
                Msg::CampoDesconhecido { idioma: String::from_str(idioma), subcampo }
            }
        },
        None => Msg::CampoDesconhecido { idioma: String::from_str(idioma), subcampo },
    }
}

fn empurrar(diags: &mut Vec<Diagnostico>, d: Diagnostico)
    ensures
        diags_v(final(diags)@) == diags_v(old(diags)@).push(d@),
{
    diags.push(d);
    assert(diags_v(diags@) =~= diags_v(old(diags)@).push(d@));
}

fn obrigatorios(
    campos: &Vec<(String, &DefCampo)>,
    vistos: &Vec<String>,
    idioma: &str,
    prefixo: &str,
    subcampo: bool,
    diags: &mut Vec<Diagnostico>,
)
    ensures
        diags_v(final(diags)@) == diags_v(old(diags)@) + obrigatorios_v(lista_campos(campos@), textos(vistos@), idioma@, prefixo@, subcampo),
{
    let ghost cs = lista_campos(campos@);
    let ghost d0 = diags_v(diags@);
    let mut i: usize = 0;
    assert(d0 + Seq::<DiagV>::empty() =~= d0);
    while i < campos.len()
        invariant
            cs == lista_campos(campos@),
            0 <= i <= cs.len(),
            diags_v(diags@) == d0 + obrigatorios_v(cs.take(i as int), textos(vistos@), idioma@, prefixo@, subcampo),
        decreases cs.len() - i,
    {
        let (canonico, def) = &campos[i];
        assert(cs[i as int] == (canonico@, **def));
        assert(cs.take(i + 1).drop_last() =~= cs.take(i as int));
        assert(cs.take(i + 1).last() == cs[i as int]);
        let ghost antes = diags_v(diags@);
        if def.obrigatorio && !contem_texto(vistos, canonico.as_str()) {
            proof {
                lema_mapear_buscar(def.alias.entradas(), idioma@, vista_texto());
            }
            let nome = match def.alias.get(idioma) {
                Some(n) => n.clone(),
                None => canonico.clone(),
            };
            let local = juntar(prefixo, nome.as_str());
            empurrar(diags, Diagnostico::erro(Local::Campo(local), Msg::ObrigatorioAusente { canonico: canonico.clone(), subcampo }));
        } else {
            assert(antes + Seq::<DiagV>::empty() =~= antes);
        }
        i = i + 1;
    }
    assert(cs.take(i as int) =~= cs);
}

} // verus!

verus! {

#[verifier::spinoff_prover]
#[verifier::rlimit(40)]
fn validar_campos(
    campos: &Vec<(String, &DefCampo)>,
    tabela: &Vec<(String, Valor)>,
    idioma: &str,
    prefixo: &str,
    subcampo: bool,
    diags: &mut Vec<Diagnostico>,
) -> (r: (usize, Vec<String>))
    ensures
        r.0 == validar_campos_v(lista_campos(campos@), tabela_v(tabela@), idioma@, prefixo@, subcampo).0,
        textos(r.1@) == vistos_de(lista_campos(campos@), tabela_v(tabela@), idioma@, subcampo),
        r.0 == r.1@.len(),
        diags_v(final(diags)@) == diags_v(old(diags)@) + validar_campos_v(lista_campos(campos@), tabela_v(tabela@), idioma@, prefixo@, subcampo).1,
    decreases tabela@, 2nat,
{
    let ghost cs = lista_campos(campos@);
    let ghost tv = tabela_v(tabela@);
    let ghost d0 = diags_v(diags@);
    proof {
        lema_tabela_v(tabela@);
    }
    let reverso = montar_reverso(campos, idioma, diags);
    let ghost rev = textos_de_mapa(reverso);
    let ghost d1 = diags_v(diags@);
    let mut reconhecidos: usize = 0;
    let mut vistos: Vec<String> = Vec::new();
    let mut i: usize = 0;
    assert(tv.take(0) =~= Seq::<(Seq<char>, ValorV)>::empty());
    assert(d1 + Seq::<DiagV>::empty() =~= d1);
    assert(textos(vistos@) =~= Seq::<Seq<char>>::empty());
    while i < tabela.len()
        invariant
            cs == lista_campos(campos@),
            tv == tabela_v(tabela@),
            tv.len() == tabela@.len(),
            forall|j: int| 0 <= j < tv.len() ==> #[trigger] tv[j] == (tabela@[j].0@, tabela@[j].1@),
            rev == textos_de_mapa(reverso),
            0 <= i <= tv.len(),
            reconhecidos <= i,
            reconhecidos == vistos@.len(),
            reconhecidos == reconhecidos_v(rev, tv.take(i as int), subcampo),
            textos(vistos@) == vistos_v(rev, tv.take(i as int), subcampo),
            diags_v(diags@) == d1 + entradas_v(cs, rev, tv.take(i as int), idioma@, prefixo@, subcampo),
        decreases tv.len() - i,
    {
        let (chave, valor) = &tabela[i];
        assert(tv.take(i + 1).drop_last() =~= tv.take(i as int));
        assert(tv.take(i + 1)[i as int] == tv[i as int]);
        assert(tv[i as int] == (chave@, valor@));
        let ghost dantes = diags_v(diags@);
        let ghost vantes = vistos@;
        if !subcampo && textos_iguais(chave.as_str(), CAMPO_SCHEMA_ID) {
            assert(dantes + Seq::<DiagV>::empty() =~= dantes);
            assert(textos(vantes) + Seq::<Seq<char>>::empty() =~= textos(vantes));
        } else {
            let local = juntar(prefixo, chave.as_str());
            proof {
                lema_mapear_buscar(reverso.entradas(), chave@, vista_texto());
            }
            match reverso.get(chave.as_str()) {
                Some(canonico) => {
                    vistos.push(canonico.clone());
                    assert(textos(vistos@) =~= textos(vantes) + seq![canonico@]);
                    reconhecidos = reconhecidos + 1;
                    match buscar_campo(campos, canonico.as_str()) {
                        Some(def) => {
                            validar_valor(def, valor, idioma, local.as_str(), diags);
                        },
                        None => {
                            assert(dantes + Seq::<DiagV>::empty() =~= dantes);
                        },
                    }
                },
                None => {
                    let msg = msg_desconhecido(campos, chave.as_str(), idioma, subcampo);
                    empurrar(diags, Diagnostico::erro(Local::Campo(local), msg));
                    assert(textos(vantes) + Seq::<Seq<char>>::empty() =~= textos(vantes));
                },
            }
        }
        i = i + 1;
        assert(diags_v(diags@) =~= d1 + entradas_v(cs, rev, tv.take(i as int), idioma@, prefixo@, subcampo));
    }
    assert(tv.take(i as int) =~= tv);
    obrigatorios(campos, &vistos, idioma, prefixo, subcampo, diags);
    assert(diags_v(diags@) =~= d0 + validar_campos_v(cs, tv, idioma@, prefixo@, subcampo).1);
    (reconhecidos, vistos)
}

fn validar_subtabela(
    subcampos: &Vec<(String, &DefCampo)>,
    tabela: &Vec<(String, Valor)>,
    idioma: &str,
    local: &str,
    diags: &mut Vec<Diagnostico>,
)
    ensures
        diags_v(final(diags)@) == diags_v(old(diags)@) + validar_subtabela_v(lista_campos(subcampos@), tabela_v(tabela@), idioma@, local@),
    decreases tabela@, 3nat,
{
    if subcampos.len() == 0 {
        empurrar(diags, Diagnostico::aviso(Local::Campo(String::from_str(local)), Msg::SemSubcampos));
        return;
    }
    validar_campos(subcampos, tabela, idioma, local, true, diags);
}

#[verifier::spinoff_prover]
fn validar_valor(def: &DefCampo, valor: &Valor, idioma: &str, local: &str, diags: &mut Vec<Diagnostico>)
    ensures
        diags_v(final(diags)@) == diags_v(old(diags)@) + validar_valor_v(*def, valor@, idioma@, local@),
    decreases valor, 2nat,
{
    let ghost d0 = diags_v(diags@);
    let td = def.tipo_dado.as_str();
    if textos_iguais(td, "string") || textos_iguais(td, "string_markdown") {
        if valor.as_str().is_none() {
            empurrar(diags, Diagnostico::erro(Local::Campo(String::from_str(local)), Msg::EsperadoTexto(valor.type_str())));
        } else {
            assert(d0 + Seq::<DiagV>::empty() =~= d0);
        }
    } else if textos_iguais(td, "array<string>") {
        match valor {
            Valor::Lista(itens) => {
                let ghost lv = crate::valor::lista_v(itens@);
                proof {
                    crate::valor::lema_lista_v(itens@);
                }
                if def.obrigatorio && itens.len() == 0 {
                    empurrar(diags, Diagnostico::erro(Local::Campo(String::from_str(local)), Msg::ListaVaziaObrigatoria));
                } else {
                    assert(d0 + Seq::<DiagV>::empty() =~= d0);
                }
                let ghost d1 = diags_v(diags@);
                let mut i: usize = 0;
                assert(lv.take(0) =~= Seq::<ValorV>::empty());
                assert(d1 + Seq::<DiagV>::empty() =~= d1);
                while i < itens.len()
                    invariant
                        lv == crate::valor::lista_v(itens@),
                        lv.len() == itens@.len(),
                        forall|j: int| 0 <= j < lv.len() ==> #[trigger] lv[j] == itens@[j]@,
                        0 <= i <= lv.len(),
                        diags_v(diags@) == d1 + itens_texto_v(lv.take(i as int), local@),
                    decreases lv.len() - i,
                {
                    assert(lv.take(i + 1).drop_last() =~= lv.take(i as int));
                    assert(lv.take(i + 1).last() == lv[i as int]);
                    let ghost dantes = diags_v(diags@);
                    if itens[i].as_str().is_none() {
                        let li = local_item_exec(local, i);
                        empurrar(diags, Diagnostico::erro(Local::Campo(li), Msg::EsperadoTexto(itens[i].type_str())));
                    } else {
                        assert(dantes + Seq::<DiagV>::empty() =~= dantes);
                    }
                    i = i + 1;
                    assert(diags_v(diags@) =~= d1 + itens_texto_v(lv.take(i as int), local@));
                }
                assert(lv.take(i as int) =~= lv);
            },
            _ => {
                empurrar(diags, Diagnostico::erro(Local::Campo(String::from_str(local)), Msg::EsperadoListaTextos(valor.type_str())));
            },
        }
    } else if textos_iguais(td, "enum") {
        match valor.as_str() {
            Some(s) => {
                if resolver_enum(def, s.as_str(), idioma).is_none() {
                    let m = msg_enum_invalido(def, s.as_str(), idioma);
                    empurrar(diags, Diagnostico::erro(Local::Campo(String::from_str(local)), m));
                } else {
                    assert(d0 + Seq::<DiagV>::empty() =~= d0);
                }
            },
            None => {
                empurrar(diags, Diagnostico::erro(Local::Campo(String::from_str(local)), Msg::EsperadoTexto(valor.type_str())));
            },
        }
    } else if textos_iguais(td, "array<tabela>") {
        match valor {
            Valor::Lista(itens) => {
                let ghost lv = crate::valor::lista_v(itens@);
                proof {
                    crate::valor::lema_lista_v(itens@);
                }
                if def.obrigatorio && itens.len() == 0 {
                    empurrar(diags, Diagnostico::erro(Local::Campo(String::from_str(local)), Msg::ListaVaziaObrigatoria));
                } else {
                    assert(d0 + Seq::<DiagV>::empty() =~= d0);
                }
                let subs = campos_de_vec(&def.subcampos);
                let ghost sv = vec_campos(def.subcampos@);
                let ghost d1 = diags_v(diags@);
                let mut i: usize = 0;
                assert(lv.take(0) =~= Seq::<ValorV>::empty());
                assert(d1 + Seq::<DiagV>::empty() =~= d1);
                while i < itens.len()
                    invariant
                        lv == crate::valor::lista_v(itens@),
                        lv.len() == itens@.len(),
                        forall|j: int| 0 <= j < lv.len() ==> #[trigger] lv[j] == itens@[j]@,
                        sv == lista_campos(subs@),
                        *valor == Valor::Lista(*itens),
                        0 <= i <= lv.len(),
                        diags_v(diags@) == d1 + itens_tabela_v(sv, lv.take(i as int), idioma@, local@),
                    decreases lv.len() - i,
                {
                    assert(lv.take(i + 1).drop_last() =~= lv.take(i as int));
                    assert(lv.take(i + 1)[i as int] == lv[i as int]);
                    let li = local_item_exec(local, i);
                    match &itens[i] {
                        Valor::Tabela(t) => {
                            assert(lv[i as int] == ValorV::Tabela(tabela_v(t@)));
                            proof {
                                assert(valor->Lista_0 == *itens);
                                assert(decreases_to!(*valor => valor->Lista_0));
                                assert(decreases_to!(*itens => itens@));
                                assert(decreases_to!(itens@ => itens@[i as int]));
                                assert(decreases_to!(itens@[i as int] => *t));
                                assert(decreases_to!(*t => t@));
                            }
                            validar_subtabela(&subs, t, idioma, li.as_str(), diags);
                        },
                        outro => {
                            empurrar(diags, Diagnostico::erro(Local::Campo(li), Msg::EsperadoTabela(outro.type_str())));
                        },
                    }
                    i = i + 1;
                    assert(diags_v(diags@) =~= d1 + itens_tabela_v(sv, lv.take(i as int), idioma@, local@));
                }
                assert(lv.take(i as int) =~= lv);
            },
            _ => {
                empurrar(diags, Diagnostico::erro(Local::Campo(String::from_str(local)), Msg::EsperadoListaTabelas(valor.type_str())));
            },
        }
    } else {
        empurrar(diags, Diagnostico::aviso(Local::Campo(String::from_str(local)), Msg::TipoDadoDesconhecido(def.tipo_dado.clone())));
    }
}

} // verus!

verus! {

pub open spec fn deref_campo<'a>() -> spec_fn(&'a DefCampo) -> DefCampo {
    |d: &'a DefCampo| *d
}

/// Os campos que valem para um tipo: os comuns e, por cima, os próprios do
/// tipo (um campo próprio substitui o comum de mesmo nome).
pub open spec fn campos_do_tipo_v(schema: Schema, tipo: Seq<char>) -> Seq<(Seq<char>, DefCampo)> {
    if tipo == "caso_de_uso"@ {
        crate::mapa::inserir_todos(schema.campos.entradas(), schema.campos_caso_de_uso.entradas())
    } else if tipo == "ator"@ {
        crate::mapa::inserir_todos(schema.campos.entradas(), schema.campos_ator.entradas())
    } else {
        schema.campos.entradas()
    }
}

/// Lista (nome, definição) de um mapa de referências, em ordem.
fn lista_de_mapa<'a>(m: &Mapa<&'a DefCampo>) -> (r: Vec<(String, &'a DefCampo)>)
    ensures
        lista_campos(r@) == crate::mapa::mapear(m.entradas(), deref_campo()),
{
    let ghost alvo = crate::mapa::mapear(m.entradas(), deref_campo());
    let mut r: Vec<(String, &'a DefCampo)> = Vec::new();
    let mut i: usize = 0;
    while i < m.len()
        invariant
            alvo == crate::mapa::mapear(m.entradas(), deref_campo()),
            alvo.len() == m.entradas().len(),
            0 <= i <= alvo.len(),
            lista_campos(r@) == alvo.take(i as int),
        decreases alvo.len() - i,
    {
        let (k, d) = m.entrada(i);
        let ghost antes = r@;
        r.push((k.clone(), *d));
        assert(alvo[i as int] == (k@, **d));
        assert(lista_campos(r@) =~= lista_campos(antes).push(alvo[i as int]));
        i = i + 1;
        assert(lista_campos(r@) =~= alvo.take(i as int));
    }
    assert(alvo.take(i as int) =~= alvo);
    r
}

/// Acrescenta a um mapa de referências as entradas de um mapa de campos.
fn acrescentar<'a>(m: &mut Mapa<&'a DefCampo>, extra: &'a Mapa<DefCampo>)
    ensures
        crate::mapa::mapear(final(m).entradas(), deref_campo())
            == crate::mapa::inserir_todos(crate::mapa::mapear(old(m).entradas(), deref_campo()), extra.entradas()),
{
    let ghost base = crate::mapa::mapear(m.entradas(), deref_campo());
    let ghost es = extra.entradas();
    let mut i: usize = 0;
    assert(es.take(0) =~= Seq::<(Seq<char>, DefCampo)>::empty());
    while i < extra.len()
        invariant
            es == extra.entradas(),
            0 <= i <= es.len(),
            crate::mapa::mapear(m.entradas(), deref_campo()) == crate::mapa::inserir_todos(base, es.take(i as int)),
        decreases es.len() - i,
    {
        let (k, d) = extra.entrada(i);
        proof {
            crate::mapa::lema_mapear_inserir(m.entradas(), k@, d, deref_campo());
            crate::mapa::lema_inserir_todos_push(base, es.take(i as int), k@, *d);
            assert(es.take(i + 1) =~= es.take(i as int).push((k@, *d)));
        }
        m.inserir(k.clone(), d);
        i = i + 1;
    }
    assert(es.take(i as int) =~= es);
}

/// Os campos aplicáveis a um tipo.
fn campos_do_tipo<'a>(schema: &'a Schema, tipo: &str) -> (r: Vec<(String, &'a DefCampo)>)
    ensures
        lista_campos(r@) == campos_do_tipo_v(*schema, tipo@),
{
    let mut m: Mapa<&'a DefCampo> = Mapa::novo();
    schema.campos.confirmar_ordem();
    proof {
        assert(crate::mapa::mapear(m.entradas(), deref_campo()) =~= Seq::<(Seq<char>, DefCampo)>::empty());
        crate::mapa::lema_inserir_todos_crescente(schema.campos.entradas());
    }
    acrescentar(&mut m, &schema.campos);
    if textos_iguais(tipo, "caso_de_uso") {
        acrescentar(&mut m, &schema.campos_caso_de_uso);
    } else if textos_iguais(tipo, "ator") {
        acrescentar(&mut m, &schema.campos_ator);
    }
    lista_de_mapa(&m)
}

} // verus!

verus! {

/// Relatório só com os diagnósticos dados.
pub open spec fn relatorio_com(ds: Seq<DiagV>) -> RelatorioV {
    RelatorioV { diagnosticos: ds, ..relatorio_vazio() }
}

/// Validação a partir da raiz (uma tabela): `schema_id`, depois o tipo,
/// depois os campos que valem para o tipo.
pub open spec fn validar_raiz_v(schema: Schema, versao: Seq<char>, t: Seq<(Seq<char>, ValorV)>) -> RelatorioV {
    match ler_campo_texto_v(t, CAMPO_SCHEMA_ID@, MsgV::SchemaIdAusente) {
        Err(d) => relatorio_com(seq![d]),
        Ok(bruto_id) => {
            let (ver, idioma) = interpretar_schema_id_v(bruto_id);
            let d0 = if ver != versao {
                seq![aviso_v(LocalV::Campo(CAMPO_SCHEMA_ID@), MsgV::VersaoDivergente { no_arquivo: ver, carregado: versao })]
            } else {
                Seq::empty()
            };
            let base = RelatorioV {
                schema_id: Some(bruto_id),
                idioma: Some(idioma),
                tipo: None,
                campos_reconhecidos: 0,
                diagnosticos: d0,
            };
            match buscar(schema.campos.entradas(), CAMPO_TIPO@) {
                None => RelatorioV {
                    diagnosticos: d0.push(erro_v(LocalV::Schema, MsgV::SchemaSemCampoCanonico(CAMPO_TIPO@))),
                    ..base
                },
                Some(def_tipo) => match buscar(alias_v(def_tipo), idioma) {
                    None => RelatorioV {
                        diagnosticos: d0.push(erro_v(LocalV::Schema, MsgV::SchemaSemAliasDoCampo { campo: CAMPO_TIPO@, idioma })),
                        ..base
                    },
                    Some(alias_tipo) => match ler_campo_texto_v(t, alias_tipo, MsgV::TipoAusente) {
                        Err(d) => RelatorioV { diagnosticos: d0.push(d), ..base },
                        Ok(bruto_tipo) => match resolver_enum_v(def_tipo.valores.entradas(), bruto_tipo, idioma) {
                            None => RelatorioV {
                                diagnosticos: d0.push(erro_v(LocalV::Campo(alias_tipo), msg_enum_invalido_v(def_tipo, bruto_tipo, idioma))),
                                ..base
                            },
                            Some(tipo) => {
                                let d1 = if tipo == "caso_de_uso"@ || tipo == "ator"@ {
                                    Seq::empty()
                                } else {
                                    seq![aviso_v(LocalV::Campo(alias_tipo), MsgV::TipoSemCamposEspecificos(tipo))]
                                };
                                let (rec, d2) = validar_campos_v(campos_do_tipo_v(schema, tipo), t, idioma, Seq::empty(), false);
                                RelatorioV {
                                    tipo: Some(tipo),
                                    campos_reconhecidos: rec,
                                    diagnosticos: d0 + d1 + d2,
                                    ..base
                                }
                            },
                        },
                    },
                },
            }
        },
    }
}

/// Validação de um documento já lido (ou do erro de leitura do TOML).
pub open spec fn validar_documento_v(schema: Schema, versao: Seq<char>, doc: Result<ValorV, Seq<char>>) -> RelatorioV {
    match doc {
        Err(e) => relatorio_com(seq![erro_v(LocalV::Toml, MsgV::TomlInvalido(e))]),
        Ok(ValorV::Tabela(t)) => validar_raiz_v(schema, versao, t),
        Ok(_) => relatorio_com(seq![erro_v(LocalV::Toml, MsgV::NaoEhTabelaRaiz)]),
    }
}

/// Validação do conteúdo de um arquivo (ou do erro ao lê-lo).
pub open spec fn validar_conteudo_v(schema: Schema, versao: Seq<char>, leitura: Result<Seq<char>, Seq<char>>) -> RelatorioV {
    match leitura {
        Err(e) => relatorio_com(seq![erro_v(LocalV::Arquivo, MsgV::ArquivoIlegivel(e))]),
        Ok(texto) => validar_documento_v(schema, versao, crate::valor::documento_toml(texto)),
    }
}

pub open spec fn leitura_v(l: Result<String, String>) -> Result<Seq<char>, Seq<char>> {
    match l {
        Ok(s) => Ok(s@),
        Err(e) => Err(e@),
    }
}

fn so_um(d: Diagnostico) -> (r: Relatorio)
    ensures
        r@ == relatorio_com(seq![d@]),
{
    let mut r = Relatorio::default();
    r.diagnosticos.push(d);
    assert(r@.diagnosticos =~= seq![d@]);
    r
}

#[verifier::spinoff_prover]
fn validar_raiz(schema: &Schema, versao: &str, tabela: &Vec<(String, Valor)>) -> (r: Relatorio)
    ensures
        r@ == validar_raiz_v(*schema, versao@, tabela_v(tabela@)),
{
    let ghost t = tabela_v(tabela@);
    let bruto_id = match ler_campo_texto(tabela, CAMPO_SCHEMA_ID, Msg::SchemaIdAusente) {
        Ok(s) => s,
        Err(d) => {
            return so_um(d);
        },
    };
    let ghost id_g = bruto_id@;
    let (versao_arq, idioma) = interpretar_schema_id(bruto_id.as_str());
    let mut diags: Vec<Diagnostico> = Vec::new();
    if !textos_iguais(versao_arq.as_str(), versao) {
        empurrar(&mut diags, Diagnostico::aviso(
            Local::Campo(String::from_str(CAMPO_SCHEMA_ID)),
            Msg::VersaoDivergente { no_arquivo: versao_arq, carregado: String::from_str(versao) },
        ));
    } else {
        assert(diags_v(diags@) =~= Seq::<DiagV>::empty());
    }
    let ghost d0 = diags_v(diags@);
    assert(ler_campo_texto_v(t, CAMPO_SCHEMA_ID@, MsgV::SchemaIdAusente) == Ok::<Seq<char>, DiagV>(id_g));
    assert(d0 == (if interpretar_schema_id_v(id_g).0 != versao@ {
        seq![aviso_v(LocalV::Campo(CAMPO_SCHEMA_ID@), MsgV::VersaoDivergente { no_arquivo: interpretar_schema_id_v(id_g).0, carregado: versao@ })]
    } else {
        Seq::empty()
    }));
    let ghost base = RelatorioV {
        schema_id: Some(id_g),
        idioma: Some(idioma@),
        tipo: None,
        campos_reconhecidos: 0,
        diagnosticos: d0,
    };
    let mut rel = Relatorio {
        schema_id: Some(bruto_id),
        idioma: Some(idioma),
        tipo: None,
        campos_reconhecidos: 0,
        diagnosticos: Vec::new(),
    };
    let idioma = rel.idioma.as_ref().unwrap();
    let def_tipo = match schema.campos.get(CAMPO_TIPO) {
        Some(d) => d,
        None => {
            let d = Diagnostico::erro(Local::Schema, Msg::SchemaSemCampoCanonico(String::from_str(CAMPO_TIPO)));
            assert(d@ == erro_v(LocalV::Schema, MsgV::SchemaSemCampoCanonico(CAMPO_TIPO@)));
            empurrar(&mut diags, d);
            rel.diagnosticos = diags;
            assert(rel@ == RelatorioV { diagnosticos: d0.push(d@), ..base });
            return rel;
        },
    };
    proof {
        lema_mapear_buscar(def_tipo.alias.entradas(), idioma@, vista_texto());
    }
    let alias_tipo = match def_tipo.alias.get(idioma.as_str()) {
        Some(a) => a.clone(),
        None => {
            let d = Diagnostico::erro(
                Local::Schema,
                Msg::SchemaSemAliasDoCampo { campo: String::from_str(CAMPO_TIPO), idioma: idioma.clone() },
            );
            assert(d@ == erro_v(LocalV::Schema, MsgV::SchemaSemAliasDoCampo { campo: CAMPO_TIPO@, idioma: idioma@ }));
            empurrar(&mut diags, d);
            rel.diagnosticos = diags;
            assert(rel@ == RelatorioV { diagnosticos: d0.push(d@), ..base });
            return rel;
        },
    };
    let bruto_tipo = match ler_campo_texto(tabela, alias_tipo.as_str(), Msg::TipoAusente) {
        Ok(s) => s,
        Err(d) => {
            let ghost dv = d@;
            empurrar(&mut diags, d);
            rel.diagnosticos = diags;
            assert(rel@ == RelatorioV { diagnosticos: d0.push(dv), ..base });
            return rel;
        },
    };
    let tipo = match resolver_enum(def_tipo, bruto_tipo.as_str(), idioma.as_str()) {
        Some(c) => c,
        None => {
            let m = msg_enum_invalido(def_tipo, bruto_tipo.as_str(), idioma.as_str());
            let d = Diagnostico::erro(Local::Campo(alias_tipo), m);
            empurrar(&mut diags, d);
            rel.diagnosticos = diags;
            assert(rel@ == RelatorioV { diagnosticos: d0.push(d@), ..base });
            return rel;
        },
    };
    let ghost alias_g = alias_tipo@;
    let ghost d1: Seq<DiagV> = if tipo@ == "caso_de_uso"@ || tipo@ == "ator"@ {
        Seq::empty()
    } else {
        seq![aviso_v(LocalV::Campo(alias_g), MsgV::TipoSemCamposEspecificos(tipo@))]
    };
    if !textos_iguais(tipo.as_str(), "caso_de_uso") && !textos_iguais(tipo.as_str(), "ator") {
        empurrar(&mut diags, Diagnostico::aviso(Local::Campo(alias_tipo), Msg::TipoSemCamposEspecificos(tipo.clone())));
        assert(diags_v(diags@) =~= d0 + d1);
    } else {
        assert(diags_v(diags@) =~= d0 + d1);
    }
    let campos = campos_do_tipo(schema, tipo.as_str());
    proof {
        reveal_strlit("");
    }
    let (reconhecidos, _vistos) = validar_campos(&campos, tabela, idioma.as_str(), "", false, &mut diags);
    assert(""@ =~= Seq::<char>::empty());
    let ghost (rec_g, d2) = validar_campos_v(campos_do_tipo_v(*schema, tipo@), t, idioma@, Seq::empty(), false);
    assert(diags_v(diags@) == d0 + d1 + d2);
    assert(ler_campo_texto_v(t, alias_g, MsgV::TipoAusente) == Ok::<Seq<char>, DiagV>(bruto_tipo@));
    rel.tipo = Some(tipo);
    rel.campos_reconhecidos = reconhecidos;
    rel.diagnosticos = diags;
    rel
}

/// Valida um documento TOML já lido, ou relata o erro de leitura dele:
/// um documento que não é tabela na raiz só produz esse erro.
pub fn validar_documento(schema: &Schema, versao: &str, doc: Result<Valor, String>) -> (r: Relatorio)
    ensures
        r@ == validar_documento_v(*schema, versao@, resultado_toml_v(doc)),
{
    match doc {
        Err(e) => so_um(Diagnostico::erro(Local::Toml, Msg::TomlInvalido(e))),
        Ok(v) => match v.as_table() {
            Some(t) => validar_raiz(schema, versao, t),
            None => so_um(Diagnostico::erro(Local::Toml, Msg::NaoEhTabelaRaiz)),
        },
    }
}

/// Valida o conteúdo de um arquivo (ou relata que não foi possível lê-lo):
/// o texto passa pelo leitor de TOML e o documento por [`validar_documento`].
pub fn validar_conteudo(schema: &Schema, versao: &str, leitura: Result<String, String>) -> (r: Relatorio)
    ensures
        r@ == validar_conteudo_v(*schema, versao@, leitura_v(leitura)),
{
    match leitura {
        Err(e) => so_um(Diagnostico::erro(Local::Arquivo, Msg::ArquivoIlegivel(e))),
        Ok(texto) => {
            let doc = ler_toml(texto.as_str());
            validar_documento(schema, versao, doc)
        },
    }
}

/// O relatório de cada arquivo, na ordem dada, junto do seu caminho.
pub open spec fn resultados_v(schema: Schema, versao: Seq<char>, e: Seq<(String, Result<String, String>)>) -> Seq<(Seq<char>, RelatorioV)> {
    e.map_values(|x: (String, Result<String, String>)| (x.0@, validar_conteudo_v(schema, versao, leitura_v(x.1))))
}

pub open spec fn resultados_vista(r: Seq<(String, Relatorio)>) -> Seq<(Seq<char>, RelatorioV)> {
    r.map_values(|x: (String, Relatorio)| (x.0@, x.1@))
}

/// Valida cada arquivo (dado pelo caminho e pelo que se leu dele), sem
/// formatar nada: cada relatório guarda o idioma que o arquivo declara.
pub fn executar_validacao(schema: &Schema, versao: &str, arquivos: &Vec<(String, Result<String, String>)>) -> (r: Vec<(String, Relatorio)>)
    ensures
        resultados_vista(r@) == resultados_v(*schema, versao@, arquivos@),
{
    let mut r: Vec<(String, Relatorio)> = Vec::new();
    let mut i: usize = 0;
    while i < arquivos.len()
        invariant
            i <= arquivos.len(),
            resultados_vista(r@) == resultados_v(*schema, versao@, arquivos@.take(i as int)),
        decreases arquivos.len() - i,
    {
        let (caminho, leitura) = &arquivos[i];
        let copia = match leitura {
            Ok(t) => Ok(t.clone()),
            Err(e) => Err(e.clone()),
        };
        assert(leitura_v(copia) == leitura_v(*leitura));
        let rel = validar_conteudo(schema, versao, copia);
        let c = caminho.clone();
        let ghost item = (c@, rel@);
        assert(item == (arquivos@[i as int].0@, validar_conteudo_v(*schema, versao@, leitura_v(arquivos@[i as int].1))));
        let ghost antes = r@;
        r.push((c, rel));
        assert(resultados_vista(r@) =~= resultados_vista(antes).push(item));
        assert(arquivos@.take(i + 1) =~= arquivos@.take(i as int).push(arquivos@[i as int]));
        assert(resultados_vista(r@) =~= resultados_v(*schema, versao@, arquivos@.take(i + 1)));
        i = i + 1;
    }
    assert(arquivos@.take(i as int) =~= arquivos@);
    r
}

proof fn lema_com_erro(ds: Seq<DiagV>, d: DiagV)
    requires
        d.nivel == Nivel::Erro,
    ensures
        contar(ds.push(d), Nivel::Erro) >= 1,
{
    assert(ds.push(d).drop_last() =~= ds);
}

proof fn lema_resolver_da_canonico(valores: Seq<(Seq<char>, DefValor)>, bruto: Seq<char>, idioma: Seq<char>)
    ensures
        match resolver_enum_v(valores, bruto, idioma) {
            Some(c) => buscar(valores, c) is Some,
            None => true,
        },
    decreases valores.len(),
{
    if valores.len() > 0 {
        lema_resolver_da_canonico(valores.drop_first(), bruto, idioma);
    }
}

/// Um relatório sem erros foi até o fim da validação: traz o `schema_id`,
/// o idioma declarado e o tipo canônico.
pub proof fn lei_valido_traz_id_idioma_e_tipo(schema: Schema, versao: Seq<char>, leitura: Result<Seq<char>, Seq<char>>)
    ensures
        valido_v(validar_conteudo_v(schema, versao, leitura)) ==> {
            let r = validar_conteudo_v(schema, versao, leitura);
            r.schema_id is Some && r.idioma is Some && r.tipo is Some
        },
{
    match leitura {
        Err(e) => {
            lema_com_erro(Seq::empty(), erro_v(LocalV::Arquivo, MsgV::ArquivoIlegivel(e)));
            assert(seq![erro_v(LocalV::Arquivo, MsgV::ArquivoIlegivel(e))] =~= Seq::<DiagV>::empty().push(erro_v(LocalV::Arquivo, MsgV::ArquivoIlegivel(e))));
        },
        Ok(texto) => {
            let doc = crate::valor::documento_toml(texto);
            match doc {
                Err(e) => {
                    let d = erro_v(LocalV::Toml, MsgV::TomlInvalido(e));
                    lema_com_erro(Seq::empty(), d);
                    assert(seq![d] =~= Seq::<DiagV>::empty().push(d));
                },
                Ok(ValorV::Tabela(t)) => lema_raiz_valida(schema, versao, t),
                Ok(_) => {
                    let d = erro_v(LocalV::Toml, MsgV::NaoEhTabelaRaiz);
                    lema_com_erro(Seq::empty(), d);
                    assert(seq![d] =~= Seq::<DiagV>::empty().push(d));
                },
            }
        },
    }
}

proof fn lema_raiz_valida(schema: Schema, versao: Seq<char>, t: Seq<(Seq<char>, ValorV)>)
    ensures
        valido_v(validar_raiz_v(schema, versao, t)) ==> {
            let r = validar_raiz_v(schema, versao, t);
            r.schema_id is Some && r.idioma is Some && r.tipo is Some
        },
{
    match ler_campo_texto_v(t, CAMPO_SCHEMA_ID@, MsgV::SchemaIdAusente) {
        Err(d) => {
            lema_com_erro(Seq::empty(), d);
            assert(seq![d] =~= Seq::<DiagV>::empty().push(d));
        },
        Ok(bruto_id) => {
            let (ver, idioma) = interpretar_schema_id_v(bruto_id);
            let d0 = if ver != versao {
                seq![aviso_v(LocalV::Campo(CAMPO_SCHEMA_ID@), MsgV::VersaoDivergente { no_arquivo: ver, carregado: versao })]
            } else {
                Seq::empty()
            };
            match buscar(schema.campos.entradas(), CAMPO_TIPO@) {
                None => lema_com_erro(d0, erro_v(LocalV::Schema, MsgV::SchemaSemCampoCanonico(CAMPO_TIPO@))),
                Some(def_tipo) => match buscar(alias_v(def_tipo), idioma) {
                    None => lema_com_erro(d0, erro_v(LocalV::Schema, MsgV::SchemaSemAliasDoCampo { campo: CAMPO_TIPO@, idioma })),
                    Some(alias_tipo) => match ler_campo_texto_v(t, alias_tipo, MsgV::TipoAusente) {
                        Err(d) => lema_com_erro(d0, d),
                        Ok(bruto_tipo) => match resolver_enum_v(def_tipo.valores.entradas(), bruto_tipo, idioma) {
                            None => lema_com_erro(d0, erro_v(LocalV::Campo(alias_tipo), msg_enum_invalido_v(def_tipo, bruto_tipo, idioma))),
                            Some(_) => {},
                        },
                    },
                },
            }
        },
    }
}

/// O tipo de um relatório é sempre um valor canônico do enum `tipo` do
/// schema, qualquer que seja o idioma em que o arquivo o escreveu.
pub proof fn lei_tipo_e_canonico(schema: Schema, versao: Seq<char>, leitura: Result<Seq<char>, Seq<char>>)
    ensures
        match validar_conteudo_v(schema, versao, leitura).tipo {
            Some(t) => match buscar(schema.campos.entradas(), CAMPO_TIPO@) {
                Some(def_tipo) => buscar(def_tipo.valores.entradas(), t) is Some,
                None => false,
            },
            None => true,
        },
{
    if let Ok(texto) = leitura {
        if let Ok(ValorV::Tabela(t)) = crate::valor::documento_toml(texto) {
            if let Ok(bruto_id) = ler_campo_texto_v(t, CAMPO_SCHEMA_ID@, MsgV::SchemaIdAusente) {
                let idioma = interpretar_schema_id_v(bruto_id).1;
                if let Some(def_tipo) = buscar(schema.campos.entradas(), CAMPO_TIPO@) {
                    if let Some(alias_tipo) = buscar(alias_v(def_tipo), idioma) {
                        if let Ok(bruto_tipo) = ler_campo_texto_v(t, alias_tipo, MsgV::TipoAusente) {
                            lema_resolver_da_canonico(def_tipo.valores.entradas(), bruto_tipo, idioma);
                        }
                    }
                }
            }
        }
    }
}

proof fn lema_sem_separador(b: Seq<char>)
    requires
        !b.contains(';'),
    ensures
        prefixo_ate(b, seq![';']) == b,
        prefixo_ate(b.push(';'), seq![';']) == b,
        resto_apos(b, seq![';']) is None,
        resto_apos(b.push(';'), seq![';']) == Some(Seq::<char>::empty()),
    decreases b.len(),
{
    if b.len() == 0 {
        assert(b.push(';').drop_first() =~= Seq::<char>::empty());
        assert(seq![';'].contains(';')) by {
            assert(seq![';'][0] == ';');
        }
    } else {
        assert(!b.drop_first().contains(';')) by {
            if b.drop_first().contains(';') {
                let i = choose|i: int| 0 <= i < b.drop_first().len() && b.drop_first()[i] == ';';
                assert(b[i + 1] == ';');
            }
        }
        assert(b[0] != ';') by {
            if b[0] == ';' {
                assert(b.contains(';'));
            }
        }
        assert(!seq![';'].contains(b[0])) by {
            if seq![';'].contains(b[0]) {
                let i = choose|i: int| 0 <= i < 1 && seq![';'][i] == b[0];
            }
        }
        lema_sem_separador(b.drop_first());
        assert(b.push(';').drop_first() =~= b.drop_first().push(';'));
        assert(b.push(';')[0] == b[0]);
        assert(seq![b[0]] + b.drop_first() =~= b);
    }
}

/// `"x"` e `"x;"` são o mesmo `schema_id`: sem locale, o idioma é o de
/// conteúdo padrão (`en`).
pub proof fn lei_schema_id_sem_locale(bruto: Seq<char>)
    requires
        !bruto.contains(';'),
    ensures
        interpretar_schema_id_v(bruto.push(';')) == interpretar_schema_id_v(bruto),
        interpretar_schema_id_v(bruto).1 == IDIOMA_PADRAO_CONTEUDO@,
{
    lema_sem_separador(bruto);
    let vazio = Seq::<char>::empty();
    assert(aparar(vazio) =~= vazio);
}

/// Todo diagnóstico localizado num campo tem o caminho começando por `p`.
pub open spec fn locais_com_prefixo(ds: Seq<DiagV>, p: Seq<char>) -> bool {
    forall|i: int|
        0 <= i < ds.len() ==> match #[trigger] ds[i].local {
            LocalV::Campo(c) => p.is_prefix_of(c),
            _ => true,
        }
}

/// Nenhum diagnóstico é aviso de versão.
pub open spec fn sem_aviso_de_versao(ds: Seq<DiagV>) -> bool {
    forall|i: int| 0 <= i < ds.len() ==> !(#[trigger] ds[i].msg is VersaoDivergente)
}

/// Os diagnósticos que a validação de campos produz: localizados sob `p`,
/// e nenhum deles é aviso de versão.
pub open spec fn diags_do_campo(ds: Seq<DiagV>, p: Seq<char>) -> bool {
    locais_com_prefixo(ds, p) && sem_aviso_de_versao(ds)
}

proof fn lema_prefixo_transitivo(p: Seq<char>, q: Seq<char>, c: Seq<char>)
    requires
        p.is_prefix_of(q),
        q.is_prefix_of(c),
    ensures
        p.is_prefix_of(c),
{
    assert(p =~= c.subrange(0, p.len() as int)) by {
        assert forall|k: int| 0 <= k < p.len() implies p[k] == c.subrange(0, p.len() as int)[k] by {
            assert(p[k] == q.subrange(0, p.len() as int)[k]);
            assert(q[k] == c.subrange(0, q.len() as int)[k]);
        }
    }
}

proof fn lema_prefixo_concat(p: Seq<char>, r: Seq<char>)
    ensures
        p.is_prefix_of(p + r),
{
    assert(p =~= (p + r).subrange(0, p.len() as int));
}

proof fn lema_locais_concat(a: Seq<DiagV>, b: Seq<DiagV>, p: Seq<char>)
    requires
        diags_do_campo(a, p),
        diags_do_campo(b, p),
    ensures
        diags_do_campo(a + b, p),
{
    assert forall|i: int| 0 <= i < (a + b).len() implies match #[trigger] (a + b)[i].local {
        LocalV::Campo(c) => p.is_prefix_of(c),
        _ => true,
    } by {
        if i < a.len() {
            assert((a + b)[i] == a[i]);
        } else {
            assert((a + b)[i] == b[i - a.len()]);
        }
    }
    assert forall|i: int| 0 <= i < (a + b).len() implies !(#[trigger] (a + b)[i].msg is VersaoDivergente) by {
        if i < a.len() {
            assert((a + b)[i] == a[i]);
        } else {
            assert((a + b)[i] == b[i - a.len()]);
        }
    }
}

proof fn lema_locais_estreitar(ds: Seq<DiagV>, p: Seq<char>, q: Seq<char>)
    requires
        diags_do_campo(ds, q),
        p.is_prefix_of(q),
    ensures
        diags_do_campo(ds, p),
{
    assert forall|i: int| 0 <= i < ds.len() implies match #[trigger] ds[i].local {
        LocalV::Campo(c) => p.is_prefix_of(c),
        _ => true,
    } by {
        if let LocalV::Campo(c) = ds[i].local {
            lema_prefixo_transitivo(p, q, c);
        }
    }
}

proof fn lema_prefixo_juntar(p: Seq<char>, k: Seq<char>)
    ensures
        p.is_prefix_of(juntar_v(p, k)),
{
    if p.len() == 0 {
        assert(p =~= juntar_v(p, k).subrange(0, 0));
    } else {
        assert(p + "."@ + k =~= p + ("."@ + k));
        lema_prefixo_concat(p, "."@ + k);
    }
}

proof fn lema_prefixo_item(p: Seq<char>, i: nat)
    ensures
        p.is_prefix_of(local_item(p, i)),
{
    assert(local_item(p, i) =~= p + ("["@ + decimal(i) + "]"@));
    lema_prefixo_concat(p, "["@ + decimal(i) + "]"@);
}

proof fn lema_um_local(d: DiagV, p: Seq<char>)
    requires
        match d.local {
            LocalV::Campo(c) => p.is_prefix_of(c),
            _ => true,
        },
        !(d.msg is VersaoDivergente),
    ensures
        diags_do_campo(seq![d], p),
{
    assert forall|i: int| 0 <= i < seq![d].len() implies match #[trigger] seq![d][i].local {
        LocalV::Campo(c) => p.is_prefix_of(c),
        _ => true,
    } by {
        assert(seq![d][i] == d);
    }
}

proof fn lema_vazio_local(p: Seq<char>)
    ensures
        diags_do_campo(Seq::<DiagV>::empty(), p),
{
}

proof fn lema_pref_itens_texto(itens: Seq<ValorV>, local: Seq<char>)
    ensures
        diags_do_campo(itens_texto_v(itens, local), local),
    decreases itens.len(),
{
    if itens.len() > 0 {
        let i = (itens.len() - 1) as nat;
        lema_pref_itens_texto(itens.drop_last(), local);
        lema_prefixo_item(local, i);
        let d = erro_v(LocalV::Campo(local_item(local, i)), MsgV::EsperadoTexto(tipo_str(itens.last())));
        lema_um_local(d, local);
        lema_locais_concat(itens_texto_v(itens.drop_last(), local), if itens.last() is Texto {
            Seq::empty()
        } else {
            seq![d]
        }, local);
    }
}

proof fn lema_pref_valor(def: DefCampo, v: ValorV, idioma: Seq<char>, local: Seq<char>)
    ensures
        diags_do_campo(validar_valor_v(def, v, idioma, local), local),
    decreases v, 2nat,
{
    let td = def.tipo_dado@;
    assert(local.is_prefix_of(local)) by {
        assert(local =~= local.subrange(0, local.len() as int));
    }
    if td == "string"@ || td == "string_markdown"@ {
    } else if td == "array<string>"@ {
        if let ValorV::Lista(itens) = v {
            lema_pref_itens_texto(itens, local);
            lema_locais_concat(vazia_obrigatoria_v(def, itens.len(), local), itens_texto_v(itens, local), local);
        }
    } else if td == "enum"@ {
    } else if td == "array<tabela>"@ {
        if let ValorV::Lista(itens) = v {
            lema_pref_itens_tabela(vec_campos(def.subcampos@), itens, idioma, local);
            lema_locais_concat(
                vazia_obrigatoria_v(def, itens.len(), local),
                itens_tabela_v(vec_campos(def.subcampos@), itens, idioma, local),
                local,
            );
        }
    }
}

proof fn lema_pref_itens_tabela(subcampos: Seq<(Seq<char>, DefCampo)>, itens: Seq<ValorV>, idioma: Seq<char>, local: Seq<char>)
    ensures
        diags_do_campo(itens_tabela_v(subcampos, itens, idioma, local), local),
    decreases itens, 1nat,
{
    if itens.len() > 0 {
        let i = (itens.len() - 1) as nat;
        let li = local_item(local, i);
        lema_pref_itens_tabela(subcampos, itens.drop_last(), idioma, local);
        lema_prefixo_item(local, i);
        let ultimo = match itens[itens.len() - 1] {
            ValorV::Tabela(t) => validar_subtabela_v(subcampos, t, idioma, li),
            outro => seq![erro_v(LocalV::Campo(li), MsgV::EsperadoTabela(tipo_str(outro)))],
        };
        match itens[itens.len() - 1] {
            ValorV::Tabela(t) => {
                lema_pref_subtabela(subcampos, t, idioma, li);
                lema_locais_estreitar(ultimo, local, li);
            },
            outro => {
                lema_um_local(erro_v(LocalV::Campo(li), MsgV::EsperadoTabela(tipo_str(outro))), local);
            },
        }
        lema_locais_concat(itens_tabela_v(subcampos, itens.drop_last(), idioma, local), ultimo, local);
    }
}

proof fn lema_pref_subtabela(subcampos: Seq<(Seq<char>, DefCampo)>, t: Seq<(Seq<char>, ValorV)>, idioma: Seq<char>, local: Seq<char>)
    ensures
        diags_do_campo(validar_subtabela_v(subcampos, t, idioma, local), local),
    decreases t, 3nat,
{
    if subcampos.len() == 0 {
        assert(local =~= local.subrange(0, local.len() as int));
        lema_um_local(aviso_v(LocalV::Campo(local), MsgV::SemSubcampos), local);
    } else {
        lema_pref_campos(subcampos, t, idioma, local, true);
    }
}

proof fn lema_pref_reverso(campos: Seq<(Seq<char>, DefCampo)>, idioma: Seq<char>, p: Seq<char>)
    ensures
        diags_do_campo(montar_reverso_v(campos, idioma).1, p),
    decreases campos.len(),
{
    if campos.len() > 0 {
        lema_pref_reverso(campos.drop_last(), idioma, p);
        let (m, d) = montar_reverso_v(campos.drop_last(), idioma);
        let canonico = campos.last().0;
        match buscar(alias_v(campos.last().1), idioma) {
            Some(a) => {
                match buscar(m, a) {
                    Some(anterior) => lema_um_local(
                        aviso_v(LocalV::Schema, MsgV::AliasAmbiguo { alias: a, idioma, anterior, atual: canonico }),
                        p,
                    ),
                    None => {},
                }
                lema_locais_concat(d, match buscar(m, a) {
                    Some(anterior) => seq![aviso_v(LocalV::Schema, MsgV::AliasAmbiguo { alias: a, idioma, anterior, atual: canonico })],
                    None => Seq::empty(),
                }, p);
            },
            None => {
                let x = aviso_v(LocalV::Schema, MsgV::SemAliasNoIdioma { canonico, idioma });
                lema_um_local(x, p);
                lema_locais_concat(d, seq![x], p);
            },
        }
    }
}

proof fn lema_pref_obrigatorios(
    campos: Seq<(Seq<char>, DefCampo)>,
    vistos: Seq<Seq<char>>,
    idioma: Seq<char>,
    prefixo: Seq<char>,
    subcampo: bool,
)
    ensures
        diags_do_campo(obrigatorios_v(campos, vistos, idioma, prefixo, subcampo), prefixo),
    decreases campos.len(),
{
    if campos.len() > 0 {
        lema_pref_obrigatorios(campos.drop_last(), vistos, idioma, prefixo, subcampo);
        let (canonico, def) = campos.last();
        let nome = match buscar(alias_v(def), idioma) {
            Some(n) => n,
            None => canonico,
        };
        lema_prefixo_juntar(prefixo, nome);
        let d = erro_v(LocalV::Campo(juntar_v(prefixo, nome)), MsgV::ObrigatorioAusente { canonico, subcampo });
        lema_um_local(d, prefixo);
        lema_locais_concat(obrigatorios_v(campos.drop_last(), vistos, idioma, prefixo, subcampo), if def.obrigatorio
            && !vistos.contains(canonico) {
            seq![d]
        } else {
            Seq::empty()
        }, prefixo);
    }
}

proof fn lema_pref_entradas(
    campos: Seq<(Seq<char>, DefCampo)>,
    reverso: Seq<(Seq<char>, Seq<char>)>,
    entradas: Seq<(Seq<char>, ValorV)>,
    idioma: Seq<char>,
    prefixo: Seq<char>,
    subcampo: bool,
)
    ensures
        diags_do_campo(entradas_v(campos, reverso, entradas, idioma, prefixo, subcampo), prefixo),
    decreases entradas, 1nat,
{
    if entradas.len() > 0 {
        let e = entradas[entradas.len() - 1];
        let local = juntar_v(prefixo, e.0);
        lema_pref_entradas(campos, reverso, entradas.drop_last(), idioma, prefixo, subcampo);
        lema_prefixo_juntar(prefixo, e.0);
        let ultimo = if entrada_ignorada(e.0, subcampo) {
            Seq::empty()
        } else {
            match buscar(reverso, e.0) {
                Some(canonico) => match buscar(campos, canonico) {
                    Some(def) => validar_valor_v(def, e.1, idioma, local),
                    None => Seq::empty(),
                },
                None => seq![erro_v(LocalV::Campo(local), msg_desconhecido_v(campos, e.0, idioma, subcampo))],
            }
        };
        if !entrada_ignorada(e.0, subcampo) {
            match buscar(reverso, e.0) {
                Some(canonico) => match buscar(campos, canonico) {
                    Some(def) => {
                        lema_pref_valor(def, e.1, idioma, local);
                        lema_locais_estreitar(ultimo, prefixo, local);
                    },
                    None => {},
                },
                None => lema_um_local(erro_v(LocalV::Campo(local), msg_desconhecido_v(campos, e.0, idioma, subcampo)), prefixo),
            }
        }
        lema_locais_concat(entradas_v(campos, reverso, entradas.drop_last(), idioma, prefixo, subcampo), ultimo, prefixo);
    }
}

proof fn lema_pref_campos(
    campos: Seq<(Seq<char>, DefCampo)>,
    tabela: Seq<(Seq<char>, ValorV)>,
    idioma: Seq<char>,
    prefixo: Seq<char>,
    subcampo: bool,
)
    ensures
        diags_do_campo(validar_campos_v(campos, tabela, idioma, prefixo, subcampo).1, prefixo),
    decreases tabela, 2nat,
{
    let (reverso, d1) = montar_reverso_v(campos, idioma);
    let d2 = entradas_v(campos, reverso, tabela, idioma, prefixo, subcampo);
    let d3 = obrigatorios_v(campos, vistos_v(reverso, tabela, subcampo), idioma, prefixo, subcampo);
    lema_pref_reverso(campos, idioma, prefixo);
    lema_pref_entradas(campos, reverso, tabela, idioma, prefixo, subcampo);
    lema_pref_obrigatorios(campos, vistos_v(reverso, tabela, subcampo), idioma, prefixo, subcampo);
    lema_locais_concat(d1, d2, prefixo);
    lema_locais_concat(d1 + d2, d3, prefixo);
}

/// Dentro de um item de subtabela, todo diagnóstico de campo leva o
/// caminho do item como prefixo (ex.: `relacoes[0].alvo`), e nenhum é
/// aviso de versão.
pub proof fn lei_subcampos_levam_o_prefixo_do_item(
    subcampos: Seq<(Seq<char>, DefCampo)>,
    t: Seq<(Seq<char>, ValorV)>,
    idioma: Seq<char>,
    local: Seq<char>,
)
    ensures
        diags_do_campo(validar_subtabela_v(subcampos, t, idioma, local), local),
{
    lema_pref_subtabela(subcampos, t, idioma, local);
}

/// Todo diagnóstico de campo que o valor de um campo produz está no
/// caminho desse campo ou abaixo dele, e nenhum é aviso de versão.
pub proof fn lei_diagnosticos_de_valor_ficam_sob_o_campo(def: DefCampo, v: ValorV, idioma: Seq<char>, local: Seq<char>)
    ensures
        diags_do_campo(validar_valor_v(def, v, idioma, local), local),
{
    lema_pref_valor(def, v, idioma, local);
}

/// O aviso de versão que um relatório traz: há `schema_id` e a versão
/// declarada nele difere da esperada.
pub open spec fn aviso_de_versao(r: RelatorioV, versao: Seq<char>) -> Seq<DiagV> {
    match r.schema_id {
        Some(id) => if interpretar_schema_id_v(id).0 != versao {
            seq![aviso_v(LocalV::Campo(CAMPO_SCHEMA_ID@), MsgV::VersaoDivergente { no_arquivo: interpretar_schema_id_v(id).0, carregado: versao })]
        } else {
            Seq::empty()
        },
        None => Seq::empty(),
    }
}

/// O que a validação diz de um arquivo, fora o aviso de versão.
pub open spec fn mesmo_relatorio_fora_a_versao(r1: RelatorioV, v1: Seq<char>, r2: RelatorioV, v2: Seq<char>) -> bool {
    &&& r1.schema_id == r2.schema_id
    &&& r1.idioma == r2.idioma
    &&& r1.tipo == r2.tipo
    &&& r1.campos_reconhecidos == r2.campos_reconhecidos
    &&& r1.diagnosticos.take(aviso_de_versao(r1, v1).len() as int) == aviso_de_versao(r1, v1)
    &&& r2.diagnosticos.take(aviso_de_versao(r2, v2).len() as int) == aviso_de_versao(r2, v2)
    &&& r1.diagnosticos.skip(aviso_de_versao(r1, v1).len() as int) == r2.diagnosticos.skip(aviso_de_versao(r2, v2).len() as int)
    &&& sem_aviso_de_versao(r1.diagnosticos.skip(aviso_de_versao(r1, v1).len() as int))
}

proof fn lema_partes(a: Seq<DiagV>, x: Seq<DiagV>)
    ensures
        (a + x).take(a.len() as int) == a,
        (a + x).skip(a.len() as int) == x,
{
    assert((a + x).take(a.len() as int) =~= a);
    assert((a + x).skip(a.len() as int) =~= x);
}

proof fn lema_raiz_versao(schema: Schema, v1: Seq<char>, v2: Seq<char>, t: Seq<(Seq<char>, ValorV)>)
    ensures
        mesmo_relatorio_fora_a_versao(validar_raiz_v(schema, v1, t), v1, validar_raiz_v(schema, v2, t), v2),
{
    let r1 = validar_raiz_v(schema, v1, t);
    let r2 = validar_raiz_v(schema, v2, t);
    match ler_campo_texto_v(t, CAMPO_SCHEMA_ID@, MsgV::SchemaIdAusente) {
        Err(d) => {
            lema_partes(Seq::empty(), seq![d]);
            assert(Seq::<DiagV>::empty() + seq![d] =~= seq![d]);
            assert(!(seq![d][0].msg is VersaoDivergente));
        },
        Ok(bruto_id) => {
            let (ver, idioma) = interpretar_schema_id_v(bruto_id);
            let a1 = aviso_de_versao(r1, v1);
            let a2 = aviso_de_versao(r2, v2);
            assert(r1.schema_id == Some(bruto_id) && r2.schema_id == Some(bruto_id));
            let x: Seq<DiagV> = match buscar(schema.campos.entradas(), CAMPO_TIPO@) {
                None => seq![erro_v(LocalV::Schema, MsgV::SchemaSemCampoCanonico(CAMPO_TIPO@))],
                Some(def_tipo) => match buscar(alias_v(def_tipo), idioma) {
                    None => seq![erro_v(LocalV::Schema, MsgV::SchemaSemAliasDoCampo { campo: CAMPO_TIPO@, idioma })],
                    Some(alias_tipo) => match ler_campo_texto_v(t, alias_tipo, MsgV::TipoAusente) {
                        Err(d) => seq![d],
                        Ok(bruto_tipo) => match resolver_enum_v(def_tipo.valores.entradas(), bruto_tipo, idioma) {
                            None => seq![erro_v(LocalV::Campo(alias_tipo), msg_enum_invalido_v(def_tipo, bruto_tipo, idioma))],
                            Some(tipo) => {
                                let d1 = if tipo == "caso_de_uso"@ || tipo == "ator"@ {
                                    Seq::empty()
                                } else {
                                    seq![aviso_v(LocalV::Campo(alias_tipo), MsgV::TipoSemCamposEspecificos(tipo))]
                                };
                                d1 + validar_campos_v(campos_do_tipo_v(schema, tipo), t, idioma, Seq::empty(), false).1
                            },
                        },
                    },
                },
            };
            match buscar(schema.campos.entradas(), CAMPO_TIPO@) {
                Some(def_tipo) => match buscar(alias_v(def_tipo), idioma) {
                    Some(alias_tipo) => match ler_campo_texto_v(t, alias_tipo, MsgV::TipoAusente) {
                        Ok(bruto_tipo) => match resolver_enum_v(def_tipo.valores.entradas(), bruto_tipo, idioma) {
                            Some(tipo) => {
                                let d1 = if tipo == "caso_de_uso"@ || tipo == "ator"@ {
                                    Seq::empty()
                                } else {
                                    seq![aviso_v(LocalV::Campo(alias_tipo), MsgV::TipoSemCamposEspecificos(tipo))]
                                };
                                let d2 = validar_campos_v(campos_do_tipo_v(schema, tipo), t, idioma, Seq::empty(), false).1;
                                assert(a1 + d1 + d2 =~= a1 + (d1 + d2));
                                assert(a2 + d1 + d2 =~= a2 + (d1 + d2));
                                lema_pref_campos(campos_do_tipo_v(schema, tipo), t, idioma, Seq::empty(), false);
                                assert forall|i: int| 0 <= i < (d1 + d2).len() implies !(#[trigger] (d1 + d2)[i].msg is VersaoDivergente) by {
                                    if i < d1.len() {
                                        assert((d1 + d2)[i] == d1[i]);
                                    } else {
                                        assert((d1 + d2)[i] == d2[i - d1.len()]);
                                    }
                                }
                            },
                            None => {},
                        },
                        _ => {},
                    },
                    None => {},
                },
                None => {},
            }
            assert(r1.diagnosticos =~= a1 + x);
            assert(r2.diagnosticos =~= a2 + x);
            lema_partes(a1, x);
            lema_partes(a2, x);
            assert(sem_aviso_de_versao(x)) by {
                if x.len() == 1 {
                    assert(!(x[0].msg is VersaoDivergente));
                }
            }
        },
    }
}

/// Duas validações do mesmo conteúdo contra o mesmo schema, que só diferem
/// na versão esperada, dão o mesmo relatório, a não ser pelo aviso de
/// versão: ele vem primeiro, só quando a versão declarada difere da
/// esperada, e nenhum outro aviso de versão aparece.
pub proof fn lei_versao_so_muda_o_aviso(schema: Schema, v1: Seq<char>, v2: Seq<char>, leitura: Result<Seq<char>, Seq<char>>)
    ensures
        mesmo_relatorio_fora_a_versao(validar_conteudo_v(schema, v1, leitura), v1, validar_conteudo_v(schema, v2, leitura), v2),
        erros_v(validar_conteudo_v(schema, v1, leitura)) == erros_v(validar_conteudo_v(schema, v2, leitura)),
{
    let r1 = validar_conteudo_v(schema, v1, leitura);
    let r2 = validar_conteudo_v(schema, v2, leitura);
    let mut um = false;
    match leitura {
        Ok(texto) => match crate::valor::documento_toml(texto) {
            Ok(ValorV::Tabela(t)) => {
                lema_raiz_versao(schema, v1, v2, t);
                um = true;
            },
            _ => {},
        },
        _ => {},
    }
    if !um {
        assert(r1 == r2);
        assert(r1.schema_id is None);
        assert(r1.diagnosticos.take(0) =~= Seq::<DiagV>::empty());
        assert(r1.diagnosticos.skip(0) =~= r1.diagnosticos);
        assert(r1.diagnosticos.len() == 1);
        assert(!(r1.diagnosticos[0].msg is VersaoDivergente));
    }
    let a1 = aviso_de_versao(r1, v1);
    let a2 = aviso_de_versao(r2, v2);
    let x = r1.diagnosticos.skip(a1.len() as int);
    assert(r1.diagnosticos =~= a1 + x);
    assert(r2.diagnosticos =~= a2 + x);
    crate::diagnostico::lema_contar_concat(a1, x, Nivel::Erro);
    crate::diagnostico::lema_contar_concat(a2, x, Nivel::Erro);
    if a1.len() > 0 {
        assert(a1.drop_last() =~= Seq::<DiagV>::empty());
    }
    if a2.len() > 0 {
        assert(a2.drop_last() =~= Seq::<DiagV>::empty());
    }
}

/// O idioma de um `schema_id`: o de conteúdo padrão (`en`) se o locale,
/// aparado, é vazio ou começa por `_` ou `-`; senão o trecho do locale até
/// o primeiro `_` ou `-`, em minúsculas. A versão é o que vem antes do
/// primeiro `;`, aparado.
pub proof fn lei_schema_id_versao_e_idioma(bruto: Seq<char>)
    ensures
        ({
            let locale = aparar(
                match resto_apos(bruto, seq![';']) {
                    Some(r) => r,
                    None => Seq::empty(),
                },
            );
            &&& interpretar_schema_id_v(bruto).0 == aparar(prefixo_ate(bruto, seq![';']))
            &&& interpretar_schema_id_v(bruto).1 == if locale.len() == 0 || locale[0] == '_' || locale[0] == '-' {
                IDIOMA_PADRAO_CONTEUDO@
            } else {
                minusculas(prefixo_ate(locale, seq!['_', '-']))
            }
        }),
{
    let locale = aparar(
        match resto_apos(bruto, seq![';']) {
            Some(r) => r,
            None => Seq::empty(),
        },
    );
    if locale.len() > 0 {
        let seps = seq!['_', '-'];
        if locale[0] == '_' || locale[0] == '-' {
            assert(seps.contains(locale[0])) by {
                if locale[0] == '_' {
                    assert(seps[0] == '_');
                } else {
                    assert(seps[1] == '-');
                }
            }
        } else {
            assert(!seps.contains(locale[0])) by {
                if seps.contains(locale[0]) {
                    let k = choose|k: int| 0 <= k < seps.len() && seps[k] == locale[0];
                    assert(k == 0 || k == 1);
                }
            }
            assert(prefixo_ate(locale, seps).len() > 0);
        }
    }
}

proof fn lema_contem_concat(a: Seq<DiagV>, b: Seq<DiagV>, d: DiagV)
    requires
        a.contains(d) || b.contains(d),
    ensures
        (a + b).contains(d),
{
    if a.contains(d) {
        let k = choose|k: int| 0 <= k < a.len() && a[k] == d;
        assert((a + b)[k] == d);
    } else {
        let k = choose|k: int| 0 <= k < b.len() && b[k] == d;
        assert((a + b)[a.len() + k] == d);
    }
}

/// Uma lista obrigatória vazia (de textos ou de tabelas) sempre dá o erro
/// de lista vazia, no próprio campo.
pub proof fn lei_lista_obrigatoria_vazia_e_erro(def: DefCampo, idioma: Seq<char>, local: Seq<char>)
    requires
        def.obrigatorio,
        def.tipo_dado@ == "array<string>"@ || def.tipo_dado@ == "array<tabela>"@,
    ensures
        validar_valor_v(def, ValorV::Lista(Seq::empty()), idioma, local).contains(
            DiagV { nivel: Nivel::Erro, local: LocalV::Campo(local), msg: MsgV::ListaVaziaObrigatoria },
        ),
{
    let d = DiagV { nivel: Nivel::Erro, local: LocalV::Campo(local), msg: MsgV::ListaVaziaObrigatoria };
    reveal_strlit("array<string>");
    reveal_strlit("array<tabela>");
    reveal_strlit("string");
    reveal_strlit("string_markdown");
    reveal_strlit("enum");
    let td = def.tipo_dado@;
    assert(td != "string"@ && td != "string_markdown"@) by {
        assert(td.len() == 13);
    }
    assert(td != "enum"@) by {
        assert(td.len() == 13);
    }
    assert("array<string>"@ != "array<tabela>"@) by {
        assert("array<string>"@[6] != "array<tabela>"@[6]);
    }
    assert(seq![d][0] == d);
    let v = validar_valor_v(def, ValorV::Lista(Seq::empty()), idioma, local);
    if td == "array<string>"@ {
        lema_contem_concat(seq![d], itens_texto_v(Seq::empty(), local), d);
    } else {
        lema_contem_concat(seq![d], itens_tabela_v(vec_campos(def.subcampos@), Seq::empty(), idioma, local), d);
    }
}

proof fn lema_item_nao_tabela(subcampos: Seq<(Seq<char>, DefCampo)>, itens: Seq<ValorV>, idioma: Seq<char>, local: Seq<char>, k: int)
    requires
        0 <= k < itens.len(),
        !(itens[k] is Tabela),
    ensures
        itens_tabela_v(subcampos, itens, idioma, local).contains(
            DiagV { nivel: Nivel::Erro, local: LocalV::Campo(local_item(local, k as nat)), msg: MsgV::EsperadoTabela(tipo_str(itens[k])) },
        ),
    decreases itens.len(),
{
    let d = DiagV { nivel: Nivel::Erro, local: LocalV::Campo(local_item(local, k as nat)), msg: MsgV::EsperadoTabela(tipo_str(itens[k])) };
    let n = itens.len() - 1;
    let li = local_item(local, n as nat);
    let ultimo = match itens[n] {
        ValorV::Tabela(t) => validar_subtabela_v(subcampos, t, idioma, li),
        outro => seq![erro_v(LocalV::Campo(li), MsgV::EsperadoTabela(tipo_str(outro)))],
    };
    if k == n {
        assert(ultimo[0] == d);
        lema_contem_concat(itens_tabela_v(subcampos, itens.drop_last(), idioma, local), ultimo, d);
    } else {
        assert(itens.drop_last()[k] == itens[k]);
        lema_item_nao_tabela(subcampos, itens.drop_last(), idioma, local, k);
        lema_contem_concat(itens_tabela_v(subcampos, itens.drop_last(), idioma, local), ultimo, d);
    }
}

/// Numa lista de tabelas, todo item que não é tabela dá o erro de tabela
/// esperada, no caminho do item (`campo[i]`), com o tipo encontrado.
pub proof fn lei_item_que_nao_e_tabela_e_erro(def: DefCampo, itens: Seq<ValorV>, idioma: Seq<char>, local: Seq<char>, k: int)
    requires
        def.tipo_dado@ == "array<tabela>"@,
        0 <= k < itens.len(),
        !(itens[k] is Tabela),
    ensures
        validar_valor_v(def, ValorV::Lista(itens), idioma, local).contains(
            DiagV { nivel: Nivel::Erro, local: LocalV::Campo(local_item(local, k as nat)), msg: MsgV::EsperadoTabela(tipo_str(itens[k])) },
        ),
{
    let d = DiagV { nivel: Nivel::Erro, local: LocalV::Campo(local_item(local, k as nat)), msg: MsgV::EsperadoTabela(tipo_str(itens[k])) };
    reveal_strlit("array<string>");
    reveal_strlit("array<tabela>");
    reveal_strlit("string");
    reveal_strlit("string_markdown");
    reveal_strlit("enum");
    let td = def.tipo_dado@;
    assert(td != "string"@ && td != "string_markdown"@ && td != "enum"@) by {
        assert(td.len() == 13);
    }
    assert(td != "array<string>"@) by {
        assert(td[6] != "array<string>"@[6]);
    }
    lema_item_nao_tabela(vec_campos(def.subcampos@), itens, idioma, local, k);
    lema_contem_concat(
        vazia_obrigatoria_v(def, itens.len(), local),
        itens_tabela_v(vec_campos(def.subcampos@), itens, idioma, local),
        d,
    );
}

/// Um valor de enum só se resolve pelo nome no idioma declarado: o
/// canônico devolvido tem, naquele idioma, exatamente o nome escrito; e
/// se algum valor tem esse nome no idioma, a resolução dá algum canônico.
pub proof fn lei_enum_so_pelo_nome_no_idioma(valores: Seq<(Seq<char>, DefValor)>, bruto: Seq<char>, idioma: Seq<char>)
    ensures
        match resolver_enum_v(valores, bruto, idioma) {
            Some(c) => exists|i: int|
                0 <= i < valores.len() && valores[i].0 == c && #[trigger] buscar(alias_valor_v(valores[i].1), idioma) == Some(bruto),
            None => forall|i: int| 0 <= i < valores.len() ==> #[trigger] buscar(alias_valor_v(valores[i].1), idioma) != Some(bruto),
        },
    decreases valores.len(),
{
    if valores.len() > 0 {
        lei_enum_so_pelo_nome_no_idioma(valores.drop_first(), bruto, idioma);
        let r = valores.drop_first();
        if buscar(alias_valor_v(valores[0].1), idioma) == Some(bruto) {
        } else {
            match resolver_enum_v(r, bruto, idioma) {
                Some(c) => {
                    let i = choose|i: int| 0 <= i < r.len() && r[i].0 == c && #[trigger] buscar(alias_valor_v(r[i].1), idioma) == Some(bruto);
                    assert(valores[i + 1] == r[i]);
                },
                None => {
                    assert forall|i: int| 0 <= i < valores.len() implies #[trigger] buscar(alias_valor_v(valores[i].1), idioma) != Some(bruto) by {
                        if i > 0 {
                            assert(valores[i] == r[i - 1]);
                        }
                    }
                },
            }
        }
    }
}

/// Um valor que não se resolve no idioma declarado, mas é o nome de algum
/// valor em outro idioma, é apontado como valor de outro idioma: a mensagem
/// traz um canônico e um idioma, diferente do declarado, em que esse
/// canônico tem exatamente o nome escrito.
pub proof fn lei_enum_de_outro_idioma_e_apontado(def: DefCampo, bruto: Seq<char>, idioma: Seq<char>, i: int, outro: Seq<char>)
    requires
        0 <= i < def.valores.entradas().len(),
        outro != idioma,
        buscar(alias_valor_v(def.valores.entradas()[i].1), outro) == Some(bruto),
    ensures
        match msg_enum_invalido_v(def, bruto, idioma) {
            MsgV::EnumInvalido { em_outro_idioma: Some(p), valor, idioma: declarado, .. } => {
                &&& valor == bruto
                &&& declarado == idioma
                &&& p.1 != idioma
                &&& exists|j: int, k: int|
                    0 <= j < def.valores.entradas().len() && def.valores.entradas()[j].0 == p.0 && 0 <= k < alias_valor_v(
                        def.valores.entradas()[j].1,
                    ).len() && #[trigger] alias_valor_v(def.valores.entradas()[j].1)[k] == (p.1, bruto)
            },
            _ => false,
        },
{
    let nomes = alias_valor_v(def.valores.entradas()[i].1);
    lema_buscar_da_par(nomes, outro, bruto);
    let k = choose|k: int| 0 <= k < nomes.len() && #[trigger] nomes[k] == (outro, bruto);
    assert(nomes[k].1 == bruto && nomes[k].0 != idioma);
    lema_em_outro_idioma(def.valores.entradas(), bruto, idioma, i);
}

proof fn lema_buscar_da_par(nomes: Seq<(Seq<char>, Seq<char>)>, k: Seq<char>, v: Seq<char>)
    requires
        buscar(nomes, k) == Some(v),
    ensures
        exists|j: int| 0 <= j < nomes.len() && #[trigger] nomes[j] == (k, v),
    decreases nomes.len(),
{
    if nomes[0].0 == k {
        assert(nomes[0] == (k, v));
    } else {
        lema_buscar_da_par(nomes.drop_first(), k, v);
        let j = choose|j: int| 0 <= j < nomes.drop_first().len() && #[trigger] nomes.drop_first()[j] == (k, v);
        assert(nomes[j + 1] == (k, v));
    }
}

/// Nome que existe em outro idioma: a busca por idioma diferente do
/// declarado acha um par (idioma, nome) de fato presente.
proof fn lema_nome_em_outro(nomes: Seq<(Seq<char>, Seq<char>)>, bruto: Seq<char>, idioma: Seq<char>)
    ensures
        (exists|k: int| 0 <= k < nomes.len() && #[trigger] nomes[k].1 == bruto && nomes[k].0 != idioma) ==> idioma_do_nome(
            nomes,
            bruto,
            idioma,
        ) is Some,
        match idioma_do_nome(nomes, bruto, idioma) {
            Some(l) => l != idioma && exists|k: int| 0 <= k < nomes.len() && #[trigger] nomes[k] == (l, bruto),
            None => true,
        },
    decreases nomes.len(),
{
    if nomes.len() > 0 {
        let r = nomes.drop_first();
        lema_nome_em_outro(r, bruto, idioma);
        if nomes[0].0 != idioma && nomes[0].1 == bruto {
            assert(nomes[0] == (nomes[0].0, bruto));
        } else {
            if exists|k: int| 0 <= k < nomes.len() && #[trigger] nomes[k].1 == bruto && nomes[k].0 != idioma {
                let k = choose|k: int| 0 <= k < nomes.len() && #[trigger] nomes[k].1 == bruto && nomes[k].0 != idioma;
                assert(k != 0);
                assert(r[k - 1] == nomes[k]);
            }
            match idioma_do_nome(r, bruto, idioma) {
                Some(l) => {
                    let k = choose|k: int| 0 <= k < r.len() && #[trigger] r[k] == (l, bruto);
                    assert(nomes[k + 1] == (l, bruto));
                },
                None => {},
            }
        }
    }
}

proof fn lema_em_outro_idioma(valores: Seq<(Seq<char>, DefValor)>, bruto: Seq<char>, idioma: Seq<char>, i: int)
    requires
        0 <= i < valores.len(),
        exists|k: int|
            0 <= k < alias_valor_v(valores[i].1).len() && #[trigger] alias_valor_v(valores[i].1)[k].1 == bruto
                && alias_valor_v(valores[i].1)[k].0 != idioma,
    ensures
        match em_outro_idioma_v(valores, bruto, idioma) {
            Some(p) => p.1 != idioma && exists|j: int, k: int|
                0 <= j < valores.len() && valores[j].0 == p.0 && 0 <= k < alias_valor_v(valores[j].1).len()
                    && #[trigger] alias_valor_v(valores[j].1)[k] == (p.1, bruto),
            None => false,
        },
    decreases valores.len(),
{
    lema_nome_em_outro(alias_valor_v(valores[0].1), bruto, idioma);
    match idioma_do_nome(alias_valor_v(valores[0].1), bruto, idioma) {
        Some(l) => {
            let k = choose|k: int| 0 <= k < alias_valor_v(valores[0].1).len() && #[trigger] alias_valor_v(valores[0].1)[k] == (l, bruto);
            assert(alias_valor_v(valores[0].1)[k] == (l, bruto));
        },
        None => {
            assert(i != 0);
            let r = valores.drop_first();
            assert(r[i - 1] == valores[i]);
            lema_em_outro_idioma(r, bruto, idioma, i - 1);
            match em_outro_idioma_v(r, bruto, idioma) {
                Some(p) => {
                    let (j, k) = choose|j: int, k: int|
                        0 <= j < r.len() && r[j].0 == p.0 && 0 <= k < alias_valor_v(r[j].1).len()
                            && #[trigger] alias_valor_v(r[j].1)[k] == (p.1, bruto);
                    assert(valores[j + 1] == r[j]);
                    assert(alias_valor_v(valores[j + 1].1)[k] == (p.1, bruto));
                },
                None => {},
            }
        },
    }
}

proof fn lema_contar_contem(ds: Seq<DiagV>, d: DiagV)
    requires
        ds.contains(d),
    ensures
        contar(ds, d.nivel) > 0,
    decreases ds.len(),
{
    if ds.last() != d {
        let k = choose|k: int| 0 <= k < ds.len() && ds[k] == d;
        assert(ds.drop_last()[k] == d);
        lema_contar_contem(ds.drop_last(), d);
    }
}

proof fn lema_entrada_no_relatorio(
    campos: Seq<(Seq<char>, DefCampo)>,
    reverso: Seq<(Seq<char>, Seq<char>)>,
    entradas: Seq<(Seq<char>, ValorV)>,
    idioma: Seq<char>,
    prefixo: Seq<char>,
    subcampo: bool,
    k: int,
    c: Seq<char>,
    def: DefCampo,
    d: DiagV,
)
    requires
        0 <= k < entradas.len(),
        !entrada_ignorada(entradas[k].0, subcampo),
        buscar(reverso, entradas[k].0) == Some(c),
        buscar(campos, c) == Some(def),
        validar_valor_v(def, entradas[k].1, idioma, juntar_v(prefixo, entradas[k].0)).contains(d),
    ensures
        entradas_v(campos, reverso, entradas, idioma, prefixo, subcampo).contains(d),
    decreases entradas.len(),
{
    let n = entradas.len() - 1;
    let e = entradas[n];
    let ultimo = if entrada_ignorada(e.0, subcampo) {
        Seq::empty()
    } else {
        match buscar(reverso, e.0) {
            Some(canonico) => match buscar(campos, canonico) {
                Some(def) => validar_valor_v(def, e.1, idioma, juntar_v(prefixo, e.0)),
                None => Seq::empty(),
            },
            None => seq![erro_v(LocalV::Campo(juntar_v(prefixo, e.0)), msg_desconhecido_v(campos, e.0, idioma, subcampo))],
        }
    };
    let antes = entradas_v(campos, reverso, entradas.drop_last(), idioma, prefixo, subcampo);
    assert(entradas_v(campos, reverso, entradas, idioma, prefixo, subcampo) == antes + ultimo);
    if k < n {
        assert(entradas.drop_last()[k] == entradas[k]);
        lema_entrada_no_relatorio(campos, reverso, entradas.drop_last(), idioma, prefixo, subcampo, k, c, def, d);
    }
    lema_contem_concat(antes, ultimo, d);
}

proof fn lema_raiz_termina_nos_campos(schema: Schema, versao: Seq<char>, t: Seq<(Seq<char>, ValorV)>, d: DiagV)
    requires
        validar_raiz_v(schema, versao, t).tipo is Some,
        validar_campos_v(
            campos_do_tipo_v(schema, validar_raiz_v(schema, versao, t).tipo.unwrap()),
            t,
            validar_raiz_v(schema, versao, t).idioma.unwrap(),
            Seq::empty(),
            false,
        ).1.contains(d),
    ensures
        validar_raiz_v(schema, versao, t).diagnosticos.contains(d),
{
    let r = validar_raiz_v(schema, versao, t);
    match ler_campo_texto_v(t, CAMPO_SCHEMA_ID@, MsgV::SchemaIdAusente) {
        Err(_) => {},
        Ok(bruto_id) => {
            let (ver, idioma) = interpretar_schema_id_v(bruto_id);
            let d0 = if ver != versao {
                seq![aviso_v(LocalV::Campo(CAMPO_SCHEMA_ID@), MsgV::VersaoDivergente { no_arquivo: ver, carregado: versao })]
            } else {
                Seq::empty()
            };
            match buscar(schema.campos.entradas(), CAMPO_TIPO@) {
                None => {},
                Some(def_tipo) => match buscar(alias_v(def_tipo), idioma) {
                    None => {},
                    Some(alias_tipo) => match ler_campo_texto_v(t, alias_tipo, MsgV::TipoAusente) {
                        Err(_) => {},
                        Ok(bruto_tipo) => match resolver_enum_v(def_tipo.valores.entradas(), bruto_tipo, idioma) {
                            None => {},
                            Some(tipo) => {
                                let d1 = if tipo == "caso_de_uso"@ || tipo == "ator"@ {
                                    Seq::empty()
                                } else {
                                    seq![aviso_v(LocalV::Campo(alias_tipo), MsgV::TipoSemCamposEspecificos(tipo))]
                                };
                                let d2 = validar_campos_v(campos_do_tipo_v(schema, tipo), t, idioma, Seq::empty(), false).1;
                                assert(r.diagnosticos == d0 + d1 + d2);
                                lema_contem_concat(d0 + d1, d2, d);
                            },
                        },
                    },
                },
            }
        },
    }
}

/// O valor de todo campo que o arquivo escreve com o nome do idioma
/// declarado é conferido, e o que essa conferência aponta está no
/// relatório do arquivo: um erro ali basta para reprovar o arquivo.
pub proof fn lei_valor_de_campo_reconhecido_vai_ao_relatorio(
    schema: Schema,
    versao: Seq<char>,
    t: Seq<(Seq<char>, ValorV)>,
    k: int,
    c: Seq<char>,
    def: DefCampo,
    d: DiagV,
)
    requires
        validar_raiz_v(schema, versao, t).tipo is Some,
        0 <= k < t.len(),
        t[k].0 != CAMPO_SCHEMA_ID@,
        buscar(
            montar_reverso_v(
                campos_do_tipo_v(schema, validar_raiz_v(schema, versao, t).tipo.unwrap()),
                validar_raiz_v(schema, versao, t).idioma.unwrap(),
            ).0,
            t[k].0,
        ) == Some(c),
        buscar(campos_do_tipo_v(schema, validar_raiz_v(schema, versao, t).tipo.unwrap()), c) == Some(def),
        validar_valor_v(def, t[k].1, validar_raiz_v(schema, versao, t).idioma.unwrap(), t[k].0).contains(d),
    ensures
        validar_raiz_v(schema, versao, t).diagnosticos.contains(d),
        d.nivel == Nivel::Erro ==> !valido_v(validar_raiz_v(schema, versao, t)),
{
    let r = validar_raiz_v(schema, versao, t);
    let tipo = r.tipo.unwrap();
    let idioma = r.idioma.unwrap();
    let campos = campos_do_tipo_v(schema, tipo);
    let reverso = montar_reverso_v(campos, idioma).0;
    assert(juntar_v(Seq::empty(), t[k].0) == t[k].0);
    lema_entrada_no_relatorio(campos, reverso, t, idioma, Seq::empty(), false, k, c, def, d);
    let d2 = entradas_v(campos, reverso, t, idioma, Seq::empty(), false);
    let d1 = montar_reverso_v(campos, idioma).1;
    let d3 = obrigatorios_v(campos, vistos_v(reverso, t, false), idioma, Seq::empty(), false);
    assert(validar_campos_v(campos, t, idioma, Seq::empty(), false).1 == d1 + d2 + d3);
    lema_contem_concat(d1, d2, d);
    lema_contem_concat(d1 + d2, d3, d);
    lema_raiz_termina_nos_campos(schema, versao, t, d);
    if d.nivel == Nivel::Erro {
        lema_contar_contem(r.diagnosticos, d);
    }
}

} // verus!
