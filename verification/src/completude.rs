//! Completude dos catálogos embutidos: toda mensagem de diagnóstico sai,
//! em cada um, sem chave ausente e sem marcador por preencher.

use vstd::prelude::*;

use crate::catalogos::{MSG_EN, MSG_PT, PLURAL_EN, PLURAL_PT, UI_EN, UI_PT};
use crate::cli::{args_erro_cli, args_erro_schema, chave_erro_cli, chave_erro_schema, render_erro_cli, ErroCliV, ErroSchema};
use crate::diagnostico::{args_msg, chave_de_especie, chave_msg, especie, lema_chave_da_especie, lema_chaves_distintas, MsgV, CAMPO_SCHEMA_ID};
use crate::idiomas::{
    bom_nome, embutidos, interpolar, juntar_pecas, lema_catalogos_embutidos, lema_interpolar_limpo, limpo, marcas_cobertas,
    pares, pecas_boas, procurar, procurar_plural, texto_v, trincas, Peca, Secao,
};
use crate::mapa::{buscar, inserir_todos, lei_inserir_todos_buscar, lema_inserir_todos_presente};
use crate::texto::unir;

verus! {

/// Os pedaços do gabarito de cada espécie de mensagem, em inglês
/// (`en`) ou em português.
pub open spec fn pecas_msg(en: bool, n: nat) -> Seq<Peca> {
    if en {
        if n == 0 {
            seq![Peca::Texto("unreadable file: "@), Peca::Marca("erro"@)]
        } else if n == 1 {
            seq![Peca::Texto("invalid TOML: "@), Peca::Marca("erro"@)]
        } else if n == 2 {
            seq![Peca::Texto("the root of the file is not a table"@)]
        } else if n == 3 {
            seq![Peca::Texto("required field '"@), Peca::Marca("campo"@), Peca::Texto("' is missing"@)]
        } else if n == 4 {
            seq![Peca::Texto("the file declares version '"@), Peca::Marca("no_arquivo"@), Peca::Texto("', but the loaded schema is '"@), Peca::Marca("carregado"@), Peca::Texto("'"@)]
        } else if n == 5 {
            seq![Peca::Texto("the schema does not define the canonical field '"@), Peca::Marca("campo"@), Peca::Texto("'"@)]
        } else if n == 6 {
            seq![Peca::Texto("the schema has no name for field '"@), Peca::Marca("campo"@), Peca::Texto("' in language '"@), Peca::Marca("idioma"@), Peca::Texto("'"@)]
        } else if n == 7 {
            seq![Peca::Texto("type field is missing"@)]
        } else if n == 8 {
            seq![Peca::Texto("type '"@), Peca::Marca("tipo"@), Peca::Texto("' has no specific fields in the schema"@)]
        } else if n == 9 {
            seq![Peca::Texto("expected text, found "@), Peca::Marca("encontrado"@)]
        } else if n == 10 {
            seq![Peca::Texto("expected a list of texts, found "@), Peca::Marca("encontrado"@)]
        } else if n == 11 {
            seq![Peca::Texto("expected a list of tables, found "@), Peca::Marca("encontrado"@)]
        } else if n == 12 {
            seq![Peca::Texto("expected a table, found "@), Peca::Marca("encontrado"@)]
        } else if n == 13 {
            seq![Peca::Texto("required list is empty"@)]
        } else if n == 14 {
            seq![Peca::Texto("invalid value '"@), Peca::Marca("valor"@), Peca::Texto("' in language '"@), Peca::Marca("idioma"@), Peca::Texto("'; allowed: "@), Peca::Marca("permitidos"@)]
        } else if n == 15 {
            seq![Peca::Texto("value '"@), Peca::Marca("valor"@), Peca::Texto("' belongs to language '"@), Peca::Marca("idioma_do_alias"@), Peca::Texto("' (canonical '"@), Peca::Marca("canonico"@), Peca::Texto("'), but the file declares '"@), Peca::Marca("idioma"@), Peca::Texto("'; allowed: "@), Peca::Marca("permitidos"@)]
        } else if n == 16 {
            seq![Peca::Texto("field '"@), Peca::Marca("canonico"@), Peca::Texto("' is written in language '"@), Peca::Marca("idioma_do_alias"@), Peca::Texto("', but the file declares '"@), Peca::Marca("idioma_declarado"@), Peca::Texto("'"@)]
        } else if n == 17 {
            seq![Peca::Texto("subfield '"@), Peca::Marca("canonico"@), Peca::Texto("' is written in language '"@), Peca::Marca("idioma_do_alias"@), Peca::Texto("', but the file declares '"@), Peca::Marca("idioma_declarado"@), Peca::Texto("'"@)]
        } else if n == 18 {
            seq![Peca::Texto("unknown field in language '"@), Peca::Marca("idioma"@), Peca::Texto("'"@)]
        } else if n == 19 {
            seq![Peca::Texto("unknown subfield in language '"@), Peca::Marca("idioma"@), Peca::Texto("'"@)]
        } else if n == 20 {
            seq![Peca::Texto("required field '"@), Peca::Marca("canonico"@), Peca::Texto("' is missing"@)]
        } else if n == 21 {
            seq![Peca::Texto("required subfield '"@), Peca::Marca("canonico"@), Peca::Texto("' is missing"@)]
        } else if n == 22 {
            seq![Peca::Texto("unknown data type '"@), Peca::Marca("tipo_dado"@), Peca::Texto("' in the schema; the value is not validated"@)]
        } else if n == 23 {
            seq![Peca::Texto("the schema defines no subfields for this list of tables"@)]
        } else if n == 24 {
            seq![Peca::Texto("name '"@), Peca::Marca("alias"@), Peca::Texto("' in language '"@), Peca::Marca("idioma"@), Peca::Texto("' serves both '"@), Peca::Marca("anterior"@), Peca::Texto("' and '"@), Peca::Marca("atual"@), Peca::Texto("'"@)]
        } else {
            seq![Peca::Texto("field '"@), Peca::Marca("canonico"@), Peca::Texto("' has no name in language '"@), Peca::Marca("idioma"@), Peca::Texto("'"@)]
        }
    } else {
        if n == 0 {
            seq![Peca::Texto("arquivo ilegível: "@), Peca::Marca("erro"@)]
        } else if n == 1 {
            seq![Peca::Texto("TOML inválido: "@), Peca::Marca("erro"@)]
        } else if n == 2 {
            seq![Peca::Texto("a raiz do arquivo não é uma tabela"@)]
        } else if n == 3 {
            seq![Peca::Texto("campo obrigatório '"@), Peca::Marca("campo"@), Peca::Texto("' ausente"@)]
        } else if n == 4 {
            seq![Peca::Texto("o arquivo declara a versão '"@), Peca::Marca("no_arquivo"@), Peca::Texto("', mas o schema carregado é '"@), Peca::Marca("carregado"@), Peca::Texto("'"@)]
        } else if n == 5 {
            seq![Peca::Texto("o schema não define o campo canônico '"@), Peca::Marca("campo"@), Peca::Texto("'"@)]
        } else if n == 6 {
            seq![Peca::Texto("o schema não tem nome para o campo '"@), Peca::Marca("campo"@), Peca::Texto("' no idioma '"@), Peca::Marca("idioma"@), Peca::Texto("'"@)]
        } else if n == 7 {
            seq![Peca::Texto("campo de tipo ausente"@)]
        } else if n == 8 {
            seq![Peca::Texto("o tipo '"@), Peca::Marca("tipo"@), Peca::Texto("' não tem campos específicos no schema"@)]
        } else if n == 9 {
            seq![Peca::Texto("esperava texto, encontrou "@), Peca::Marca("encontrado"@)]
        } else if n == 10 {
            seq![Peca::Texto("esperava lista de textos, encontrou "@), Peca::Marca("encontrado"@)]
        } else if n == 11 {
            seq![Peca::Texto("esperava lista de tabelas, encontrou "@), Peca::Marca("encontrado"@)]
        } else if n == 12 {
            seq![Peca::Texto("esperava tabela, encontrou "@), Peca::Marca("encontrado"@)]
        } else if n == 13 {
            seq![Peca::Texto("lista obrigatória está vazia"@)]
        } else if n == 14 {
            seq![Peca::Texto("valor '"@), Peca::Marca("valor"@), Peca::Texto("' inválido no idioma '"@), Peca::Marca("idioma"@), Peca::Texto("'; permitidos: "@), Peca::Marca("permitidos"@)]
        } else if n == 15 {
            seq![Peca::Texto("o valor '"@), Peca::Marca("valor"@), Peca::Texto("' é do idioma '"@), Peca::Marca("idioma_do_alias"@), Peca::Texto("' (canônico '"@), Peca::Marca("canonico"@), Peca::Texto("'), mas o arquivo declara '"@), Peca::Marca("idioma"@), Peca::Texto("'; permitidos: "@), Peca::Marca("permitidos"@)]
        } else if n == 16 {
            seq![Peca::Texto("campo '"@), Peca::Marca("canonico"@), Peca::Texto("' escrito no idioma '"@), Peca::Marca("idioma_do_alias"@), Peca::Texto("', mas o arquivo declara '"@), Peca::Marca("idioma_declarado"@), Peca::Texto("'"@)]
        } else if n == 17 {
            seq![Peca::Texto("subcampo '"@), Peca::Marca("canonico"@), Peca::Texto("' escrito no idioma '"@), Peca::Marca("idioma_do_alias"@), Peca::Texto("', mas o arquivo declara '"@), Peca::Marca("idioma_declarado"@), Peca::Texto("'"@)]
        } else if n == 18 {
            seq![Peca::Texto("campo desconhecido no idioma '"@), Peca::Marca("idioma"@), Peca::Texto("'"@)]
        } else if n == 19 {
            seq![Peca::Texto("subcampo desconhecido no idioma '"@), Peca::Marca("idioma"@), Peca::Texto("'"@)]
        } else if n == 20 {
            seq![Peca::Texto("campo obrigatório '"@), Peca::Marca("canonico"@), Peca::Texto("' ausente"@)]
        } else if n == 21 {
            seq![Peca::Texto("subcampo obrigatório '"@), Peca::Marca("canonico"@), Peca::Texto("' ausente"@)]
        } else if n == 22 {
            seq![Peca::Texto("tipo de dado '"@), Peca::Marca("tipo_dado"@), Peca::Texto("' desconhecido no schema; valor não verificado"@)]
        } else if n == 23 {
            seq![Peca::Texto("o schema não define subcampos para esta lista de tabelas"@)]
        } else if n == 24 {
            seq![Peca::Texto("o nome '"@), Peca::Marca("alias"@), Peca::Texto("' no idioma '"@), Peca::Marca("idioma"@), Peca::Texto("' serve a '"@), Peca::Marca("anterior"@), Peca::Texto("' e a '"@), Peca::Marca("atual"@), Peca::Texto("'"@)]
        } else {
            seq![Peca::Texto("o campo '"@), Peca::Marca("canonico"@), Peca::Texto("' não tem nome no idioma '"@), Peca::Marca("idioma"@), Peca::Texto("'"@)]
        }
    }
}

/// Os nomes de argumento das mensagens não têm chaves.
proof fn lema_nomes_bons()
    ensures
        bom_nome("caminho"@),
        bom_nome("disponiveis"@),
        bom_nome("alias"@),
        bom_nome("anterior"@),
        bom_nome("atual"@),
        bom_nome("campo"@),
        bom_nome("canonico"@),
        bom_nome("carregado"@),
        bom_nome("encontrado"@),
        bom_nome("erro"@),
        bom_nome("idioma"@),
        bom_nome("idioma_declarado"@),
        bom_nome("idioma_do_alias"@),
        bom_nome("no_arquivo"@),
        bom_nome("permitidos"@),
        bom_nome("tipo"@),
        bom_nome("tipo_dado"@),
        bom_nome("valor"@),
{
    reveal_strlit("caminho");
    reveal_strlit("disponiveis");
    reveal_strlit("alias");
    reveal_strlit("anterior");
    reveal_strlit("atual");
    reveal_strlit("campo");
    reveal_strlit("canonico");
    reveal_strlit("carregado");
    reveal_strlit("encontrado");
    reveal_strlit("erro");
    reveal_strlit("idioma");
    reveal_strlit("idioma_declarado");
    reveal_strlit("idioma_do_alias");
    reveal_strlit("no_arquivo");
    reveal_strlit("permitidos");
    reveal_strlit("tipo");
    reveal_strlit("tipo_dado");
    reveal_strlit("valor");
    assert("caminho"@ =~= seq!['c', 'a', 'm', 'i', 'n', 'h', 'o']);
    assert("disponiveis"@ =~= seq!['d', 'i', 's', 'p', 'o', 'n', 'i', 'v', 'e', 'i', 's']);
    assert("alias"@ =~= seq!['a', 'l', 'i', 'a', 's']);
    assert("anterior"@ =~= seq!['a', 'n', 't', 'e', 'r', 'i', 'o', 'r']);
    assert("atual"@ =~= seq!['a', 't', 'u', 'a', 'l']);
    assert("campo"@ =~= seq!['c', 'a', 'm', 'p', 'o']);
    assert("canonico"@ =~= seq!['c', 'a', 'n', 'o', 'n', 'i', 'c', 'o']);
    assert("carregado"@ =~= seq!['c', 'a', 'r', 'r', 'e', 'g', 'a', 'd', 'o']);
    assert("encontrado"@ =~= seq!['e', 'n', 'c', 'o', 'n', 't', 'r', 'a', 'd', 'o']);
    assert("erro"@ =~= seq!['e', 'r', 'r', 'o']);
    assert("idioma"@ =~= seq!['i', 'd', 'i', 'o', 'm', 'a']);
    assert("idioma_declarado"@ =~= seq!['i', 'd', 'i', 'o', 'm', 'a', '_', 'd', 'e', 'c', 'l', 'a', 'r', 'a', 'd', 'o']);
    assert("idioma_do_alias"@ =~= seq!['i', 'd', 'i', 'o', 'm', 'a', '_', 'd', 'o', '_', 'a', 'l', 'i', 'a', 's']);
    assert("no_arquivo"@ =~= seq!['n', 'o', '_', 'a', 'r', 'q', 'u', 'i', 'v', 'o']);
    assert("permitidos"@ =~= seq!['p', 'e', 'r', 'm', 'i', 't', 'i', 'd', 'o', 's']);
    assert("tipo"@ =~= seq!['t', 'i', 'p', 'o']);
    assert("tipo_dado"@ =~= seq!['t', 'i', 'p', 'o', '_', 'd', 'a', 'd', 'o']);
    assert("valor"@ =~= seq!['v', 'a', 'l', 'o', 'r']);
}

proof fn lema_molde_en_0()
    ensures
        MSG_EN@[0].1@ == juntar_pecas(pecas_msg(true, 0)),
        pecas_boas(pecas_msg(true, 0)),
{
    reveal_strlit("unreadable file: {erro}");
    reveal_strlit("erro");
    reveal_strlit("unreadable file: ");
    lema_nomes_bons();
    reveal_with_fuel(juntar_pecas, 3);
    let ps = pecas_msg(true, 0);
    assert("unreadable file: {erro}"@ =~= juntar_pecas(ps));
    assert forall|i: int| 0 <= i < ps.len() implies match #[trigger] ps[i] {
        Peca::Texto(t) => limpo(t),
        Peca::Marca(m) => bom_nome(m),
    } by {
        if let Peca::Texto(t) = ps[i] {
            assert(!t.contains('{') && !t.contains('⟨'));
        }
    }
}

proof fn lema_molde_en_1()
    ensures
        MSG_EN@[1].1@ == juntar_pecas(pecas_msg(true, 1)),
        pecas_boas(pecas_msg(true, 1)),
{
    reveal_strlit("invalid TOML: {erro}");
    reveal_strlit("erro");
    reveal_strlit("invalid TOML: ");
    lema_nomes_bons();
    reveal_with_fuel(juntar_pecas, 3);
    let ps = pecas_msg(true, 1);
    assert("invalid TOML: {erro}"@ =~= juntar_pecas(ps));
    assert forall|i: int| 0 <= i < ps.len() implies match #[trigger] ps[i] {
        Peca::Texto(t) => limpo(t),
        Peca::Marca(m) => bom_nome(m),
    } by {
        if let Peca::Texto(t) = ps[i] {
            assert(!t.contains('{') && !t.contains('⟨'));
        }
    }
}

proof fn lema_molde_en_2()
    ensures
        MSG_EN@[2].1@ == juntar_pecas(pecas_msg(true, 2)),
        pecas_boas(pecas_msg(true, 2)),
{
    reveal_strlit("the root of the file is not a table");

    reveal_strlit("the root of the file is not a table");
    lema_nomes_bons();
    reveal_with_fuel(juntar_pecas, 2);
    let ps = pecas_msg(true, 2);
    assert("the root of the file is not a table"@ =~= juntar_pecas(ps));
    assert forall|i: int| 0 <= i < ps.len() implies match #[trigger] ps[i] {
        Peca::Texto(t) => limpo(t),
        Peca::Marca(m) => bom_nome(m),
    } by {
        if let Peca::Texto(t) = ps[i] {
            assert(!t.contains('{') && !t.contains('⟨'));
        }
    }
}

proof fn lema_molde_en_3()
    ensures
        MSG_EN@[3].1@ == juntar_pecas(pecas_msg(true, 3)),
        pecas_boas(pecas_msg(true, 3)),
{
    reveal_strlit("required field '{campo}' is missing");
    reveal_strlit("campo");
    reveal_strlit("required field '");
    reveal_strlit("' is missing");
    lema_nomes_bons();
    reveal_with_fuel(juntar_pecas, 4);
    let ps = pecas_msg(true, 3);
    assert("required field '{campo}' is missing"@ =~= juntar_pecas(ps));
    assert forall|i: int| 0 <= i < ps.len() implies match #[trigger] ps[i] {
        Peca::Texto(t) => limpo(t),
        Peca::Marca(m) => bom_nome(m),
    } by {
        if let Peca::Texto(t) = ps[i] {
            assert(!t.contains('{') && !t.contains('⟨'));
        }
    }
}

proof fn lema_molde_en_4()
    ensures
        MSG_EN@[4].1@ == juntar_pecas(pecas_msg(true, 4)),
        pecas_boas(pecas_msg(true, 4)),
{
    reveal_strlit("the file declares version '{no_arquivo}', but the loaded schema is '{carregado}'");
    reveal_strlit("no_arquivo");
    reveal_strlit("carregado");
    reveal_strlit("the file declares version '");
    reveal_strlit("', but the loaded schema is '");
    reveal_strlit("'");
    lema_nomes_bons();
    reveal_with_fuel(juntar_pecas, 6);
    let ps = pecas_msg(true, 4);
    assert("the file declares version '{no_arquivo}', but the loaded schema is '{carregado}'"@ =~= juntar_pecas(ps));
    assert forall|i: int| 0 <= i < ps.len() implies match #[trigger] ps[i] {
        Peca::Texto(t) => limpo(t),
        Peca::Marca(m) => bom_nome(m),
    } by {
        if let Peca::Texto(t) = ps[i] {
            assert(!t.contains('{') && !t.contains('⟨'));
        }
    }
}

proof fn lema_molde_en_5()
    ensures
        MSG_EN@[5].1@ == juntar_pecas(pecas_msg(true, 5)),
        pecas_boas(pecas_msg(true, 5)),
{
    reveal_strlit("the schema does not define the canonical field '{campo}'");
    reveal_strlit("campo");
    reveal_strlit("the schema does not define the canonical field '");
    reveal_strlit("'");
    lema_nomes_bons();
    reveal_with_fuel(juntar_pecas, 4);
    let ps = pecas_msg(true, 5);
    assert("the schema does not define the canonical field '{campo}'"@ =~= juntar_pecas(ps));
    assert forall|i: int| 0 <= i < ps.len() implies match #[trigger] ps[i] {
        Peca::Texto(t) => limpo(t),
        Peca::Marca(m) => bom_nome(m),
    } by {
        if let Peca::Texto(t) = ps[i] {
            assert(!t.contains('{') && !t.contains('⟨'));
        }
    }
}

proof fn lema_molde_en_6()
    ensures
        MSG_EN@[6].1@ == juntar_pecas(pecas_msg(true, 6)),
        pecas_boas(pecas_msg(true, 6)),
{
    reveal_strlit("the schema has no name for field '{campo}' in language '{idioma}'");
    reveal_strlit("campo");
    reveal_strlit("idioma");
    reveal_strlit("the schema has no name for field '");
    reveal_strlit("' in language '");
    reveal_strlit("'");
    lema_nomes_bons();
    reveal_with_fuel(juntar_pecas, 6);
    let ps = pecas_msg(true, 6);
    assert("the schema has no name for field '{campo}' in language '{idioma}'"@ =~= juntar_pecas(ps));
    assert forall|i: int| 0 <= i < ps.len() implies match #[trigger] ps[i] {
        Peca::Texto(t) => limpo(t),
        Peca::Marca(m) => bom_nome(m),
    } by {
        if let Peca::Texto(t) = ps[i] {
            assert(!t.contains('{') && !t.contains('⟨'));
        }
    }
}

proof fn lema_molde_en_7()
    ensures
        MSG_EN@[7].1@ == juntar_pecas(pecas_msg(true, 7)),
        pecas_boas(pecas_msg(true, 7)),
{
    reveal_strlit("type field is missing");

    reveal_strlit("type field is missing");
    lema_nomes_bons();
    reveal_with_fuel(juntar_pecas, 2);
    let ps = pecas_msg(true, 7);
    assert("type field is missing"@ =~= juntar_pecas(ps));
    assert forall|i: int| 0 <= i < ps.len() implies match #[trigger] ps[i] {
        Peca::Texto(t) => limpo(t),
        Peca::Marca(m) => bom_nome(m),
    } by {
        if let Peca::Texto(t) = ps[i] {
            assert(!t.contains('{') && !t.contains('⟨'));
        }
    }
}

proof fn lema_molde_en_8()
    ensures
        MSG_EN@[8].1@ == juntar_pecas(pecas_msg(true, 8)),
        pecas_boas(pecas_msg(true, 8)),
{
    reveal_strlit("type '{tipo}' has no specific fields in the schema");
    reveal_strlit("tipo");
    reveal_strlit("type '");
    reveal_strlit("' has no specific fields in the schema");
    lema_nomes_bons();
    reveal_with_fuel(juntar_pecas, 4);
    let ps = pecas_msg(true, 8);
    assert("type '{tipo}' has no specific fields in the schema"@ =~= juntar_pecas(ps));
    assert forall|i: int| 0 <= i < ps.len() implies match #[trigger] ps[i] {
        Peca::Texto(t) => limpo(t),
        Peca::Marca(m) => bom_nome(m),
    } by {
        if let Peca::Texto(t) = ps[i] {
            assert(!t.contains('{') && !t.contains('⟨'));
        }
    }
}

proof fn lema_molde_en_9()
    ensures
        MSG_EN@[9].1@ == juntar_pecas(pecas_msg(true, 9)),
        pecas_boas(pecas_msg(true, 9)),
{
    reveal_strlit("expected text, found {encontrado}");
    reveal_strlit("encontrado");
    reveal_strlit("expected text, found ");
    lema_nomes_bons();
    reveal_with_fuel(juntar_pecas, 3);
    let ps = pecas_msg(true, 9);
    assert("expected text, found {encontrado}"@ =~= juntar_pecas(ps));
    assert forall|i: int| 0 <= i < ps.len() implies match #[trigger] ps[i] {
        Peca::Texto(t) => limpo(t),
        Peca::Marca(m) => bom_nome(m),
    } by {
        if let Peca::Texto(t) = ps[i] {
            assert(!t.contains('{') && !t.contains('⟨'));
        }
    }
}

proof fn lema_molde_en_10()
    ensures
        MSG_EN@[10].1@ == juntar_pecas(pecas_msg(true, 10)),
        pecas_boas(pecas_msg(true, 10)),
{
    reveal_strlit("expected a list of texts, found {encontrado}");
    reveal_strlit("encontrado");
    reveal_strlit("expected a list of texts, found ");
    lema_nomes_bons();
    reveal_with_fuel(juntar_pecas, 3);
    let ps = pecas_msg(true, 10);
    assert("expected a list of texts, found {encontrado}"@ =~= juntar_pecas(ps));
    assert forall|i: int| 0 <= i < ps.len() implies match #[trigger] ps[i] {
        Peca::Texto(t) => limpo(t),
        Peca::Marca(m) => bom_nome(m),
    } by {
        if let Peca::Texto(t) = ps[i] {
            assert(!t.contains('{') && !t.contains('⟨'));
        }
    }
}

proof fn lema_molde_en_11()
    ensures
        MSG_EN@[11].1@ == juntar_pecas(pecas_msg(true, 11)),
        pecas_boas(pecas_msg(true, 11)),
{
    reveal_strlit("expected a list of tables, found {encontrado}");
    reveal_strlit("encontrado");
    reveal_strlit("expected a list of tables, found ");
    lema_nomes_bons();
    reveal_with_fuel(juntar_pecas, 3);
    let ps = pecas_msg(true, 11);
    assert("expected a list of tables, found {encontrado}"@ =~= juntar_pecas(ps));
    assert forall|i: int| 0 <= i < ps.len() implies match #[trigger] ps[i] {
        Peca::Texto(t) => limpo(t),
        Peca::Marca(m) => bom_nome(m),
    } by {
        if let Peca::Texto(t) = ps[i] {
            assert(!t.contains('{') && !t.contains('⟨'));
        }
    }
}

proof fn lema_molde_en_12()
    ensures
        MSG_EN@[12].1@ == juntar_pecas(pecas_msg(true, 12)),
        pecas_boas(pecas_msg(true, 12)),
{
    reveal_strlit("expected a table, found {encontrado}");
    reveal_strlit("encontrado");
    reveal_strlit("expected a table, found ");
    lema_nomes_bons();
    reveal_with_fuel(juntar_pecas, 3);
    let ps = pecas_msg(true, 12);
    assert("expected a table, found {encontrado}"@ =~= juntar_pecas(ps));
    assert forall|i: int| 0 <= i < ps.len() implies match #[trigger] ps[i] {
        Peca::Texto(t) => limpo(t),
        Peca::Marca(m) => bom_nome(m),
    } by {
        if let Peca::Texto(t) = ps[i] {
            assert(!t.contains('{') && !t.contains('⟨'));
        }
    }
}

proof fn lema_molde_en_13()
    ensures
        MSG_EN@[13].1@ == juntar_pecas(pecas_msg(true, 13)),
        pecas_boas(pecas_msg(true, 13)),
{
    reveal_strlit("required list is empty");

    reveal_strlit("required list is empty");
    lema_nomes_bons();
    reveal_with_fuel(juntar_pecas, 2);
    let ps = pecas_msg(true, 13);
    assert("required list is empty"@ =~= juntar_pecas(ps));
    assert forall|i: int| 0 <= i < ps.len() implies match #[trigger] ps[i] {
        Peca::Texto(t) => limpo(t),
        Peca::Marca(m) => bom_nome(m),
    } by {
        if let Peca::Texto(t) = ps[i] {
            assert(!t.contains('{') && !t.contains('⟨'));
        }
    }
}

proof fn lema_molde_en_14()
    ensures
        MSG_EN@[14].1@ == juntar_pecas(pecas_msg(true, 14)),
        pecas_boas(pecas_msg(true, 14)),
{
    reveal_strlit("invalid value '{valor}' in language '{idioma}'; allowed: {permitidos}");
    reveal_strlit("valor");
    reveal_strlit("idioma");
    reveal_strlit("permitidos");
    reveal_strlit("invalid value '");
    reveal_strlit("' in language '");
    reveal_strlit("'; allowed: ");
    lema_nomes_bons();
    reveal_with_fuel(juntar_pecas, 7);
    let ps = pecas_msg(true, 14);
    assert("invalid value '{valor}' in language '{idioma}'; allowed: {permitidos}"@ =~= juntar_pecas(ps));
    assert forall|i: int| 0 <= i < ps.len() implies match #[trigger] ps[i] {
        Peca::Texto(t) => limpo(t),
        Peca::Marca(m) => bom_nome(m),
    } by {
        if let Peca::Texto(t) = ps[i] {
            assert(!t.contains('{') && !t.contains('⟨'));
        }
    }
}

proof fn lema_molde_en_15()
    ensures
        MSG_EN@[15].1@ == juntar_pecas(pecas_msg(true, 15)),
        pecas_boas(pecas_msg(true, 15)),
{
    reveal_strlit("value '{valor}' belongs to language '{idioma_do_alias}' (canonical '{canonico}'), but the file declares '{idioma}'; allowed: {permitidos}");
    reveal_strlit("valor");
    reveal_strlit("idioma_do_alias");
    reveal_strlit("canonico");
    reveal_strlit("idioma");
    reveal_strlit("permitidos");
    reveal_strlit("value '");
    reveal_strlit("' belongs to language '");
    reveal_strlit("' (canonical '");
    reveal_strlit("'), but the file declares '");
    reveal_strlit("'; allowed: ");
    lema_nomes_bons();
    reveal_with_fuel(juntar_pecas, 11);
    let ps = pecas_msg(true, 15);
    assert("value '{valor}' belongs to language '{idioma_do_alias}' (canonical '{canonico}'), but the file declares '{idioma}'; allowed: {permitidos}"@ =~= juntar_pecas(ps));
    assert forall|i: int| 0 <= i < ps.len() implies match #[trigger] ps[i] {
        Peca::Texto(t) => limpo(t),
        Peca::Marca(m) => bom_nome(m),
    } by {
        if let Peca::Texto(t) = ps[i] {
            assert(!t.contains('{') && !t.contains('⟨'));
        }
    }
}

proof fn lema_molde_en_16()
    ensures
        MSG_EN@[16].1@ == juntar_pecas(pecas_msg(true, 16)),
        pecas_boas(pecas_msg(true, 16)),
{
    reveal_strlit("field '{canonico}' is written in language '{idioma_do_alias}', but the file declares '{idioma_declarado}'");
    reveal_strlit("canonico");
    reveal_strlit("idioma_do_alias");
    reveal_strlit("idioma_declarado");
    reveal_strlit("field '");
    reveal_strlit("' is written in language '");
    reveal_strlit("', but the file declares '");
    reveal_strlit("'");
    lema_nomes_bons();
    reveal_with_fuel(juntar_pecas, 8);
    let ps = pecas_msg(true, 16);
    assert("field '{canonico}' is written in language '{idioma_do_alias}', but the file declares '{idioma_declarado}'"@ =~= juntar_pecas(ps));
    assert forall|i: int| 0 <= i < ps.len() implies match #[trigger] ps[i] {
        Peca::Texto(t) => limpo(t),
        Peca::Marca(m) => bom_nome(m),
    } by {
        if let Peca::Texto(t) = ps[i] {
            assert(!t.contains('{') && !t.contains('⟨'));
        }
    }
}

proof fn lema_molde_en_17()
    ensures
        MSG_EN@[17].1@ == juntar_pecas(pecas_msg(true, 17)),
        pecas_boas(pecas_msg(true, 17)),
{
    reveal_strlit("subfield '{canonico}' is written in language '{idioma_do_alias}', but the file declares '{idioma_declarado}'");
    reveal_strlit("canonico");
    reveal_strlit("idioma_do_alias");
    reveal_strlit("idioma_declarado");
    reveal_strlit("subfield '");
    reveal_strlit("' is written in language '");
    reveal_strlit("', but the file declares '");
    reveal_strlit("'");
    lema_nomes_bons();
    reveal_with_fuel(juntar_pecas, 8);
    let ps = pecas_msg(true, 17);
    assert("subfield '{canonico}' is written in language '{idioma_do_alias}', but the file declares '{idioma_declarado}'"@ =~= juntar_pecas(ps));
    assert forall|i: int| 0 <= i < ps.len() implies match #[trigger] ps[i] {
        Peca::Texto(t) => limpo(t),
        Peca::Marca(m) => bom_nome(m),
    } by {
        if let Peca::Texto(t) = ps[i] {
            assert(!t.contains('{') && !t.contains('⟨'));
        }
    }
}

proof fn lema_molde_en_18()
    ensures
        MSG_EN@[18].1@ == juntar_pecas(pecas_msg(true, 18)),
        pecas_boas(pecas_msg(true, 18)),
{
    reveal_strlit("unknown field in language '{idioma}'");
    reveal_strlit("idioma");
    reveal_strlit("unknown field in language '");
    reveal_strlit("'");
    lema_nomes_bons();
    reveal_with_fuel(juntar_pecas, 4);
    let ps = pecas_msg(true, 18);
    assert("unknown field in language '{idioma}'"@ =~= juntar_pecas(ps));
    assert forall|i: int| 0 <= i < ps.len() implies match #[trigger] ps[i] {
        Peca::Texto(t) => limpo(t),
        Peca::Marca(m) => bom_nome(m),
    } by {
        if let Peca::Texto(t) = ps[i] {
            assert(!t.contains('{') && !t.contains('⟨'));
        }
    }
}

proof fn lema_molde_en_19()
    ensures
        MSG_EN@[19].1@ == juntar_pecas(pecas_msg(true, 19)),
        pecas_boas(pecas_msg(true, 19)),
{
    reveal_strlit("unknown subfield in language '{idioma}'");
    reveal_strlit("idioma");
    reveal_strlit("unknown subfield in language '");
    reveal_strlit("'");
    lema_nomes_bons();
    reveal_with_fuel(juntar_pecas, 4);
    let ps = pecas_msg(true, 19);
    assert("unknown subfield in language '{idioma}'"@ =~= juntar_pecas(ps));
    assert forall|i: int| 0 <= i < ps.len() implies match #[trigger] ps[i] {
        Peca::Texto(t) => limpo(t),
        Peca::Marca(m) => bom_nome(m),
    } by {
        if let Peca::Texto(t) = ps[i] {
            assert(!t.contains('{') && !t.contains('⟨'));
        }
    }
}

proof fn lema_molde_en_20()
    ensures
        MSG_EN@[20].1@ == juntar_pecas(pecas_msg(true, 20)),
        pecas_boas(pecas_msg(true, 20)),
{
    reveal_strlit("required field '{canonico}' is missing");
    reveal_strlit("canonico");
    reveal_strlit("required field '");
    reveal_strlit("' is missing");
    lema_nomes_bons();
    reveal_with_fuel(juntar_pecas, 4);
    let ps = pecas_msg(true, 20);
    assert("required field '{canonico}' is missing"@ =~= juntar_pecas(ps));
    assert forall|i: int| 0 <= i < ps.len() implies match #[trigger] ps[i] {
        Peca::Texto(t) => limpo(t),
        Peca::Marca(m) => bom_nome(m),
    } by {
        if let Peca::Texto(t) = ps[i] {
            assert(!t.contains('{') && !t.contains('⟨'));
        }
    }
}

proof fn lema_molde_en_21()
    ensures
        MSG_EN@[21].1@ == juntar_pecas(pecas_msg(true, 21)),
        pecas_boas(pecas_msg(true, 21)),
{
    reveal_strlit("required subfield '{canonico}' is missing");
    reveal_strlit("canonico");
    reveal_strlit("required subfield '");
    reveal_strlit("' is missing");
    lema_nomes_bons();
    reveal_with_fuel(juntar_pecas, 4);
    let ps = pecas_msg(true, 21);
    assert("required subfield '{canonico}' is missing"@ =~= juntar_pecas(ps));
    assert forall|i: int| 0 <= i < ps.len() implies match #[trigger] ps[i] {
        Peca::Texto(t) => limpo(t),
        Peca::Marca(m) => bom_nome(m),
    } by {
        if let Peca::Texto(t) = ps[i] {
            assert(!t.contains('{') && !t.contains('⟨'));
        }
    }
}

proof fn lema_molde_en_22()
    ensures
        MSG_EN@[22].1@ == juntar_pecas(pecas_msg(true, 22)),
        pecas_boas(pecas_msg(true, 22)),
{
    reveal_strlit("unknown data type '{tipo_dado}' in the schema; the value is not validated");
    reveal_strlit("tipo_dado");
    reveal_strlit("unknown data type '");
    reveal_strlit("' in the schema; the value is not validated");
    lema_nomes_bons();
    reveal_with_fuel(juntar_pecas, 4);
    let ps = pecas_msg(true, 22);
    assert("unknown data type '{tipo_dado}' in the schema; the value is not validated"@ =~= juntar_pecas(ps));
    assert forall|i: int| 0 <= i < ps.len() implies match #[trigger] ps[i] {
        Peca::Texto(t) => limpo(t),
        Peca::Marca(m) => bom_nome(m),
    } by {
        if let Peca::Texto(t) = ps[i] {
            assert(!t.contains('{') && !t.contains('⟨'));
        }
    }
}

proof fn lema_molde_en_23()
    ensures
        MSG_EN@[23].1@ == juntar_pecas(pecas_msg(true, 23)),
        pecas_boas(pecas_msg(true, 23)),
{
    reveal_strlit("the schema defines no subfields for this list of tables");

    reveal_strlit("the schema defines no subfields for this list of tables");
    lema_nomes_bons();
    reveal_with_fuel(juntar_pecas, 2);
    let ps = pecas_msg(true, 23);
    assert("the schema defines no subfields for this list of tables"@ =~= juntar_pecas(ps));
    assert forall|i: int| 0 <= i < ps.len() implies match #[trigger] ps[i] {
        Peca::Texto(t) => limpo(t),
        Peca::Marca(m) => bom_nome(m),
    } by {
        if let Peca::Texto(t) = ps[i] {
            assert(!t.contains('{') && !t.contains('⟨'));
        }
    }
}

proof fn lema_molde_en_24()
    ensures
        MSG_EN@[24].1@ == juntar_pecas(pecas_msg(true, 24)),
        pecas_boas(pecas_msg(true, 24)),
{
    reveal_strlit("name '{alias}' in language '{idioma}' serves both '{anterior}' and '{atual}'");
    reveal_strlit("alias");
    reveal_strlit("idioma");
    reveal_strlit("anterior");
    reveal_strlit("atual");
    reveal_strlit("name '");
    reveal_strlit("' in language '");
    reveal_strlit("' serves both '");
    reveal_strlit("' and '");
    reveal_strlit("'");
    lema_nomes_bons();
    reveal_with_fuel(juntar_pecas, 10);
    let ps = pecas_msg(true, 24);
    assert("name '{alias}' in language '{idioma}' serves both '{anterior}' and '{atual}'"@ =~= juntar_pecas(ps));
    assert forall|i: int| 0 <= i < ps.len() implies match #[trigger] ps[i] {
        Peca::Texto(t) => limpo(t),
        Peca::Marca(m) => bom_nome(m),
    } by {
        if let Peca::Texto(t) = ps[i] {
            assert(!t.contains('{') && !t.contains('⟨'));
        }
    }
}

proof fn lema_molde_en_25()
    ensures
        MSG_EN@[25].1@ == juntar_pecas(pecas_msg(true, 25)),
        pecas_boas(pecas_msg(true, 25)),
{
    reveal_strlit("field '{canonico}' has no name in language '{idioma}'");
    reveal_strlit("canonico");
    reveal_strlit("idioma");
    reveal_strlit("field '");
    reveal_strlit("' has no name in language '");
    reveal_strlit("'");
    lema_nomes_bons();
    reveal_with_fuel(juntar_pecas, 6);
    let ps = pecas_msg(true, 25);
    assert("field '{canonico}' has no name in language '{idioma}'"@ =~= juntar_pecas(ps));
    assert forall|i: int| 0 <= i < ps.len() implies match #[trigger] ps[i] {
        Peca::Texto(t) => limpo(t),
        Peca::Marca(m) => bom_nome(m),
    } by {
        if let Peca::Texto(t) = ps[i] {
            assert(!t.contains('{') && !t.contains('⟨'));
        }
    }
}

proof fn lema_molde_pt_0()
    ensures
        MSG_PT@[0].1@ == juntar_pecas(pecas_msg(false, 0)),
        pecas_boas(pecas_msg(false, 0)),
{
    reveal_strlit("arquivo ilegível: {erro}");
    reveal_strlit("erro");
    reveal_strlit("arquivo ilegível: ");
    lema_nomes_bons();
    reveal_with_fuel(juntar_pecas, 3);
    let ps = pecas_msg(false, 0);
    assert("arquivo ilegível: {erro}"@ =~= juntar_pecas(ps));
    assert forall|i: int| 0 <= i < ps.len() implies match #[trigger] ps[i] {
        Peca::Texto(t) => limpo(t),
        Peca::Marca(m) => bom_nome(m),
    } by {
        if let Peca::Texto(t) = ps[i] {
            assert(!t.contains('{') && !t.contains('⟨'));
        }
    }
}

proof fn lema_molde_pt_1()
    ensures
        MSG_PT@[1].1@ == juntar_pecas(pecas_msg(false, 1)),
        pecas_boas(pecas_msg(false, 1)),
{
    reveal_strlit("TOML inválido: {erro}");
    reveal_strlit("erro");
    reveal_strlit("TOML inválido: ");
    lema_nomes_bons();
    reveal_with_fuel(juntar_pecas, 3);
    let ps = pecas_msg(false, 1);
    assert("TOML inválido: {erro}"@ =~= juntar_pecas(ps));
    assert forall|i: int| 0 <= i < ps.len() implies match #[trigger] ps[i] {
        Peca::Texto(t) => limpo(t),
        Peca::Marca(m) => bom_nome(m),
    } by {
        if let Peca::Texto(t) = ps[i] {
            assert(!t.contains('{') && !t.contains('⟨'));
        }
    }
}

proof fn lema_molde_pt_2()
    ensures
        MSG_PT@[2].1@ == juntar_pecas(pecas_msg(false, 2)),
        pecas_boas(pecas_msg(false, 2)),
{
    reveal_strlit("a raiz do arquivo não é uma tabela");

    reveal_strlit("a raiz do arquivo não é uma tabela");
    lema_nomes_bons();
    reveal_with_fuel(juntar_pecas, 2);
    let ps = pecas_msg(false, 2);
    assert("a raiz do arquivo não é uma tabela"@ =~= juntar_pecas(ps));
    assert forall|i: int| 0 <= i < ps.len() implies match #[trigger] ps[i] {
        Peca::Texto(t) => limpo(t),
        Peca::Marca(m) => bom_nome(m),
    } by {
        if let Peca::Texto(t) = ps[i] {
            assert(!t.contains('{') && !t.contains('⟨'));
        }
    }
}

proof fn lema_molde_pt_3()
    ensures
        MSG_PT@[3].1@ == juntar_pecas(pecas_msg(false, 3)),
        pecas_boas(pecas_msg(false, 3)),
{
    reveal_strlit("campo obrigatório '{campo}' ausente");
    reveal_strlit("campo");
    reveal_strlit("campo obrigatório '");
    reveal_strlit("' ausente");
    lema_nomes_bons();
    reveal_with_fuel(juntar_pecas, 4);
    let ps = pecas_msg(false, 3);
    assert("campo obrigatório '{campo}' ausente"@ =~= juntar_pecas(ps));
    assert forall|i: int| 0 <= i < ps.len() implies match #[trigger] ps[i] {
        Peca::Texto(t) => limpo(t),
        Peca::Marca(m) => bom_nome(m),
    } by {
        if let Peca::Texto(t) = ps[i] {
            assert(!t.contains('{') && !t.contains('⟨'));
        }
    }
}

proof fn lema_molde_pt_4()
    ensures
        MSG_PT@[4].1@ == juntar_pecas(pecas_msg(false, 4)),
        pecas_boas(pecas_msg(false, 4)),
{
    reveal_strlit("o arquivo declara a versão '{no_arquivo}', mas o schema carregado é '{carregado}'");
    reveal_strlit("no_arquivo");
    reveal_strlit("carregado");
    reveal_strlit("o arquivo declara a versão '");
    reveal_strlit("', mas o schema carregado é '");
    reveal_strlit("'");
    lema_nomes_bons();
    reveal_with_fuel(juntar_pecas, 6);
    let ps = pecas_msg(false, 4);
    assert("o arquivo declara a versão '{no_arquivo}', mas o schema carregado é '{carregado}'"@ =~= juntar_pecas(ps));
    assert forall|i: int| 0 <= i < ps.len() implies match #[trigger] ps[i] {
        Peca::Texto(t) => limpo(t),
        Peca::Marca(m) => bom_nome(m),
    } by {
        if let Peca::Texto(t) = ps[i] {
            assert(!t.contains('{') && !t.contains('⟨'));
        }
    }
}

proof fn lema_molde_pt_5()
    ensures
        MSG_PT@[5].1@ == juntar_pecas(pecas_msg(false, 5)),
        pecas_boas(pecas_msg(false, 5)),
{
    reveal_strlit("o schema não define o campo canônico '{campo}'");
    reveal_strlit("campo");
    reveal_strlit("o schema não define o campo canônico '");
    reveal_strlit("'");
    lema_nomes_bons();
    reveal_with_fuel(juntar_pecas, 4);
    let ps = pecas_msg(false, 5);
    assert("o schema não define o campo canônico '{campo}'"@ =~= juntar_pecas(ps));
    assert forall|i: int| 0 <= i < ps.len() implies match #[trigger] ps[i] {
        Peca::Texto(t) => limpo(t),
        Peca::Marca(m) => bom_nome(m),
    } by {
        if let Peca::Texto(t) = ps[i] {
            assert(!t.contains('{') && !t.contains('⟨'));
        }
    }
}

proof fn lema_molde_pt_6()
    ensures
        MSG_PT@[6].1@ == juntar_pecas(pecas_msg(false, 6)),
        pecas_boas(pecas_msg(false, 6)),
{
    reveal_strlit("o schema não tem nome para o campo '{campo}' no idioma '{idioma}'");
    reveal_strlit("campo");
    reveal_strlit("idioma");
    reveal_strlit("o schema não tem nome para o campo '");
    reveal_strlit("' no idioma '");
    reveal_strlit("'");
    lema_nomes_bons();
    reveal_with_fuel(juntar_pecas, 6);
    let ps = pecas_msg(false, 6);
    assert("o schema não tem nome para o campo '{campo}' no idioma '{idioma}'"@ =~= juntar_pecas(ps));
    assert forall|i: int| 0 <= i < ps.len() implies match #[trigger] ps[i] {
        Peca::Texto(t) => limpo(t),
        Peca::Marca(m) => bom_nome(m),
    } by {
        if let Peca::Texto(t) = ps[i] {
            assert(!t.contains('{') && !t.contains('⟨'));
        }
    }
}

proof fn lema_molde_pt_7()
    ensures
        MSG_PT@[7].1@ == juntar_pecas(pecas_msg(false, 7)),
        pecas_boas(pecas_msg(false, 7)),
{
    reveal_strlit("campo de tipo ausente");

    reveal_strlit("campo de tipo ausente");
    lema_nomes_bons();
    reveal_with_fuel(juntar_pecas, 2);
    let ps = pecas_msg(false, 7);
    assert("campo de tipo ausente"@ =~= juntar_pecas(ps));
    assert forall|i: int| 0 <= i < ps.len() implies match #[trigger] ps[i] {
        Peca::Texto(t) => limpo(t),
        Peca::Marca(m) => bom_nome(m),
    } by {
        if let Peca::Texto(t) = ps[i] {
            assert(!t.contains('{') && !t.contains('⟨'));
        }
    }
}

proof fn lema_molde_pt_8()
    ensures
        MSG_PT@[8].1@ == juntar_pecas(pecas_msg(false, 8)),
        pecas_boas(pecas_msg(false, 8)),
{
    reveal_strlit("o tipo '{tipo}' não tem campos específicos no schema");
    reveal_strlit("tipo");
    reveal_strlit("o tipo '");
    reveal_strlit("' não tem campos específicos no schema");
    lema_nomes_bons();
    reveal_with_fuel(juntar_pecas, 4);
    let ps = pecas_msg(false, 8);
    assert("o tipo '{tipo}' não tem campos específicos no schema"@ =~= juntar_pecas(ps));
    assert forall|i: int| 0 <= i < ps.len() implies match #[trigger] ps[i] {
        Peca::Texto(t) => limpo(t),
        Peca::Marca(m) => bom_nome(m),
    } by {
        if let Peca::Texto(t) = ps[i] {
            assert(!t.contains('{') && !t.contains('⟨'));
        }
    }
}

proof fn lema_molde_pt_9()
    ensures
        MSG_PT@[9].1@ == juntar_pecas(pecas_msg(false, 9)),
        pecas_boas(pecas_msg(false, 9)),
{
    reveal_strlit("esperava texto, encontrou {encontrado}");
    reveal_strlit("encontrado");
    reveal_strlit("esperava texto, encontrou ");
    lema_nomes_bons();
    reveal_with_fuel(juntar_pecas, 3);
    let ps = pecas_msg(false, 9);
    assert("esperava texto, encontrou {encontrado}"@ =~= juntar_pecas(ps));
    assert forall|i: int| 0 <= i < ps.len() implies match #[trigger] ps[i] {
        Peca::Texto(t) => limpo(t),
        Peca::Marca(m) => bom_nome(m),
    } by {
        if let Peca::Texto(t) = ps[i] {
            assert(!t.contains('{') && !t.contains('⟨'));
        }
    }
}

proof fn lema_molde_pt_10()
    ensures
        MSG_PT@[10].1@ == juntar_pecas(pecas_msg(false, 10)),
        pecas_boas(pecas_msg(false, 10)),
{
    reveal_strlit("esperava lista de textos, encontrou {encontrado}");
    reveal_strlit("encontrado");
    reveal_strlit("esperava lista de textos, encontrou ");
    lema_nomes_bons();
    reveal_with_fuel(juntar_pecas, 3);
    let ps = pecas_msg(false, 10);
    assert("esperava lista de textos, encontrou {encontrado}"@ =~= juntar_pecas(ps));
    assert forall|i: int| 0 <= i < ps.len() implies match #[trigger] ps[i] {
        Peca::Texto(t) => limpo(t),
        Peca::Marca(m) => bom_nome(m),
    } by {
        if let Peca::Texto(t) = ps[i] {
            assert(!t.contains('{') && !t.contains('⟨'));
        }
    }
}

proof fn lema_molde_pt_11()
    ensures
        MSG_PT@[11].1@ == juntar_pecas(pecas_msg(false, 11)),
        pecas_boas(pecas_msg(false, 11)),
{
    reveal_strlit("esperava lista de tabelas, encontrou {encontrado}");
    reveal_strlit("encontrado");
    reveal_strlit("esperava lista de tabelas, encontrou ");
    lema_nomes_bons();
    reveal_with_fuel(juntar_pecas, 3);
    let ps = pecas_msg(false, 11);
    assert("esperava lista de tabelas, encontrou {encontrado}"@ =~= juntar_pecas(ps));
    assert forall|i: int| 0 <= i < ps.len() implies match #[trigger] ps[i] {
        Peca::Texto(t) => limpo(t),
        Peca::Marca(m) => bom_nome(m),
    } by {
        if let Peca::Texto(t) = ps[i] {
            assert(!t.contains('{') && !t.contains('⟨'));
        }
    }
}

proof fn lema_molde_pt_12()
    ensures
        MSG_PT@[12].1@ == juntar_pecas(pecas_msg(false, 12)),
        pecas_boas(pecas_msg(false, 12)),
{
    reveal_strlit("esperava tabela, encontrou {encontrado}");
    reveal_strlit("encontrado");
    reveal_strlit("esperava tabela, encontrou ");
    lema_nomes_bons();
    reveal_with_fuel(juntar_pecas, 3);
    let ps = pecas_msg(false, 12);
    assert("esperava tabela, encontrou {encontrado}"@ =~= juntar_pecas(ps));
    assert forall|i: int| 0 <= i < ps.len() implies match #[trigger] ps[i] {
        Peca::Texto(t) => limpo(t),
        Peca::Marca(m) => bom_nome(m),
    } by {
        if let Peca::Texto(t) = ps[i] {
            assert(!t.contains('{') && !t.contains('⟨'));
        }
    }
}

proof fn lema_molde_pt_13()
    ensures
        MSG_PT@[13].1@ == juntar_pecas(pecas_msg(false, 13)),
        pecas_boas(pecas_msg(false, 13)),
{
    reveal_strlit("lista obrigatória está vazia");

    reveal_strlit("lista obrigatória está vazia");
    lema_nomes_bons();
    reveal_with_fuel(juntar_pecas, 2);
    let ps = pecas_msg(false, 13);
    assert("lista obrigatória está vazia"@ =~= juntar_pecas(ps));
    assert forall|i: int| 0 <= i < ps.len() implies match #[trigger] ps[i] {
        Peca::Texto(t) => limpo(t),
        Peca::Marca(m) => bom_nome(m),
    } by {
        if let Peca::Texto(t) = ps[i] {
            assert(!t.contains('{') && !t.contains('⟨'));
        }
    }
}

proof fn lema_molde_pt_14()
    ensures
        MSG_PT@[14].1@ == juntar_pecas(pecas_msg(false, 14)),
        pecas_boas(pecas_msg(false, 14)),
{
    reveal_strlit("valor '{valor}' inválido no idioma '{idioma}'; permitidos: {permitidos}");
    reveal_strlit("valor");
    reveal_strlit("idioma");
    reveal_strlit("permitidos");
    reveal_strlit("valor '");
    reveal_strlit("' inválido no idioma '");
    reveal_strlit("'; permitidos: ");
    lema_nomes_bons();
    reveal_with_fuel(juntar_pecas, 7);
    let ps = pecas_msg(false, 14);
    assert("valor '{valor}' inválido no idioma '{idioma}'; permitidos: {permitidos}"@ =~= juntar_pecas(ps));
    assert forall|i: int| 0 <= i < ps.len() implies match #[trigger] ps[i] {
        Peca::Texto(t) => limpo(t),
        Peca::Marca(m) => bom_nome(m),
    } by {
        if let Peca::Texto(t) = ps[i] {
            assert(!t.contains('{') && !t.contains('⟨'));
        }
    }
}

proof fn lema_molde_pt_15()
    ensures
        MSG_PT@[15].1@ == juntar_pecas(pecas_msg(false, 15)),
        pecas_boas(pecas_msg(false, 15)),
{
    reveal_strlit("o valor '{valor}' é do idioma '{idioma_do_alias}' (canônico '{canonico}'), mas o arquivo declara '{idioma}'; permitidos: {permitidos}");
    reveal_strlit("valor");
    reveal_strlit("idioma_do_alias");
    reveal_strlit("canonico");
    reveal_strlit("idioma");
    reveal_strlit("permitidos");
    reveal_strlit("o valor '");
    reveal_strlit("' é do idioma '");
    reveal_strlit("' (canônico '");
    reveal_strlit("'), mas o arquivo declara '");
    reveal_strlit("'; permitidos: ");
    lema_nomes_bons();
    reveal_with_fuel(juntar_pecas, 11);
    let ps = pecas_msg(false, 15);
    assert("o valor '{valor}' é do idioma '{idioma_do_alias}' (canônico '{canonico}'), mas o arquivo declara '{idioma}'; permitidos: {permitidos}"@ =~= juntar_pecas(ps));
    assert forall|i: int| 0 <= i < ps.len() implies match #[trigger] ps[i] {
        Peca::Texto(t) => limpo(t),
        Peca::Marca(m) => bom_nome(m),
    } by {
        if let Peca::Texto(t) = ps[i] {
            assert(!t.contains('{') && !t.contains('⟨'));
        }
    }
}

proof fn lema_molde_pt_16()
    ensures
        MSG_PT@[16].1@ == juntar_pecas(pecas_msg(false, 16)),
        pecas_boas(pecas_msg(false, 16)),
{
    reveal_strlit("campo '{canonico}' escrito no idioma '{idioma_do_alias}', mas o arquivo declara '{idioma_declarado}'");
    reveal_strlit("canonico");
    reveal_strlit("idioma_do_alias");
    reveal_strlit("idioma_declarado");
    reveal_strlit("campo '");
    reveal_strlit("' escrito no idioma '");
    reveal_strlit("', mas o arquivo declara '");
    reveal_strlit("'");
    lema_nomes_bons();
    reveal_with_fuel(juntar_pecas, 8);
    let ps = pecas_msg(false, 16);
    assert("campo '{canonico}' escrito no idioma '{idioma_do_alias}', mas o arquivo declara '{idioma_declarado}'"@ =~= juntar_pecas(ps));
    assert forall|i: int| 0 <= i < ps.len() implies match #[trigger] ps[i] {
        Peca::Texto(t) => limpo(t),
        Peca::Marca(m) => bom_nome(m),
    } by {
        if let Peca::Texto(t) = ps[i] {
            assert(!t.contains('{') && !t.contains('⟨'));
        }
    }
}

proof fn lema_molde_pt_17()
    ensures
        MSG_PT@[17].1@ == juntar_pecas(pecas_msg(false, 17)),
        pecas_boas(pecas_msg(false, 17)),
{
    reveal_strlit("subcampo '{canonico}' escrito no idioma '{idioma_do_alias}', mas o arquivo declara '{idioma_declarado}'");
    reveal_strlit("canonico");
    reveal_strlit("idioma_do_alias");
    reveal_strlit("idioma_declarado");
    reveal_strlit("subcampo '");
    reveal_strlit("' escrito no idioma '");
    reveal_strlit("', mas o arquivo declara '");
    reveal_strlit("'");
    lema_nomes_bons();
    reveal_with_fuel(juntar_pecas, 8);
    let ps = pecas_msg(false, 17);
    assert("subcampo '{canonico}' escrito no idioma '{idioma_do_alias}', mas o arquivo declara '{idioma_declarado}'"@ =~= juntar_pecas(ps));
    assert forall|i: int| 0 <= i < ps.len() implies match #[trigger] ps[i] {
        Peca::Texto(t) => limpo(t),
        Peca::Marca(m) => bom_nome(m),
    } by {
        if let Peca::Texto(t) = ps[i] {
            assert(!t.contains('{') && !t.contains('⟨'));
        }
    }
}

proof fn lema_molde_pt_18()
    ensures
        MSG_PT@[18].1@ == juntar_pecas(pecas_msg(false, 18)),
        pecas_boas(pecas_msg(false, 18)),
{
    reveal_strlit("campo desconhecido no idioma '{idioma}'");
    reveal_strlit("idioma");
    reveal_strlit("campo desconhecido no idioma '");
    reveal_strlit("'");
    lema_nomes_bons();
    reveal_with_fuel(juntar_pecas, 4);
    let ps = pecas_msg(false, 18);
    assert("campo desconhecido no idioma '{idioma}'"@ =~= juntar_pecas(ps));
    assert forall|i: int| 0 <= i < ps.len() implies match #[trigger] ps[i] {
        Peca::Texto(t) => limpo(t),
        Peca::Marca(m) => bom_nome(m),
    } by {
        if let Peca::Texto(t) = ps[i] {
            assert(!t.contains('{') && !t.contains('⟨'));
        }
    }
}

proof fn lema_molde_pt_19()
    ensures
        MSG_PT@[19].1@ == juntar_pecas(pecas_msg(false, 19)),
        pecas_boas(pecas_msg(false, 19)),
{
    reveal_strlit("subcampo desconhecido no idioma '{idioma}'");
    reveal_strlit("idioma");
    reveal_strlit("subcampo desconhecido no idioma '");
    reveal_strlit("'");
    lema_nomes_bons();
    reveal_with_fuel(juntar_pecas, 4);
    let ps = pecas_msg(false, 19);
    assert("subcampo desconhecido no idioma '{idioma}'"@ =~= juntar_pecas(ps));
    assert forall|i: int| 0 <= i < ps.len() implies match #[trigger] ps[i] {
        Peca::Texto(t) => limpo(t),
        Peca::Marca(m) => bom_nome(m),
    } by {
        if let Peca::Texto(t) = ps[i] {
            assert(!t.contains('{') && !t.contains('⟨'));
        }
    }
}

proof fn lema_molde_pt_20()
    ensures
        MSG_PT@[20].1@ == juntar_pecas(pecas_msg(false, 20)),
        pecas_boas(pecas_msg(false, 20)),
{
    reveal_strlit("campo obrigatório '{canonico}' ausente");
    reveal_strlit("canonico");
    reveal_strlit("campo obrigatório '");
    reveal_strlit("' ausente");
    lema_nomes_bons();
    reveal_with_fuel(juntar_pecas, 4);
    let ps = pecas_msg(false, 20);
    assert("campo obrigatório '{canonico}' ausente"@ =~= juntar_pecas(ps));
    assert forall|i: int| 0 <= i < ps.len() implies match #[trigger] ps[i] {
        Peca::Texto(t) => limpo(t),
        Peca::Marca(m) => bom_nome(m),
    } by {
        if let Peca::Texto(t) = ps[i] {
            assert(!t.contains('{') && !t.contains('⟨'));
        }
    }
}

proof fn lema_molde_pt_21()
    ensures
        MSG_PT@[21].1@ == juntar_pecas(pecas_msg(false, 21)),
        pecas_boas(pecas_msg(false, 21)),
{
    reveal_strlit("subcampo obrigatório '{canonico}' ausente");
    reveal_strlit("canonico");
    reveal_strlit("subcampo obrigatório '");
    reveal_strlit("' ausente");
    lema_nomes_bons();
    reveal_with_fuel(juntar_pecas, 4);
    let ps = pecas_msg(false, 21);
    assert("subcampo obrigatório '{canonico}' ausente"@ =~= juntar_pecas(ps));
    assert forall|i: int| 0 <= i < ps.len() implies match #[trigger] ps[i] {
        Peca::Texto(t) => limpo(t),
        Peca::Marca(m) => bom_nome(m),
    } by {
        if let Peca::Texto(t) = ps[i] {
            assert(!t.contains('{') && !t.contains('⟨'));
        }
    }
}

proof fn lema_molde_pt_22()
    ensures
        MSG_PT@[22].1@ == juntar_pecas(pecas_msg(false, 22)),
        pecas_boas(pecas_msg(false, 22)),
{
    reveal_strlit("tipo de dado '{tipo_dado}' desconhecido no schema; valor não verificado");
    reveal_strlit("tipo_dado");
    reveal_strlit("tipo de dado '");
    reveal_strlit("' desconhecido no schema; valor não verificado");
    lema_nomes_bons();
    reveal_with_fuel(juntar_pecas, 4);
    let ps = pecas_msg(false, 22);
    assert("tipo de dado '{tipo_dado}' desconhecido no schema; valor não verificado"@ =~= juntar_pecas(ps));
    assert forall|i: int| 0 <= i < ps.len() implies match #[trigger] ps[i] {
        Peca::Texto(t) => limpo(t),
        Peca::Marca(m) => bom_nome(m),
    } by {
        if let Peca::Texto(t) = ps[i] {
            assert(!t.contains('{') && !t.contains('⟨'));
        }
    }
}

proof fn lema_molde_pt_23()
    ensures
        MSG_PT@[23].1@ == juntar_pecas(pecas_msg(false, 23)),
        pecas_boas(pecas_msg(false, 23)),
{
    reveal_strlit("o schema não define subcampos para esta lista de tabelas");

    reveal_strlit("o schema não define subcampos para esta lista de tabelas");
    lema_nomes_bons();
    reveal_with_fuel(juntar_pecas, 2);
    let ps = pecas_msg(false, 23);
    assert("o schema não define subcampos para esta lista de tabelas"@ =~= juntar_pecas(ps));
    assert forall|i: int| 0 <= i < ps.len() implies match #[trigger] ps[i] {
        Peca::Texto(t) => limpo(t),
        Peca::Marca(m) => bom_nome(m),
    } by {
        if let Peca::Texto(t) = ps[i] {
            assert(!t.contains('{') && !t.contains('⟨'));
        }
    }
}

proof fn lema_molde_pt_24()
    ensures
        MSG_PT@[24].1@ == juntar_pecas(pecas_msg(false, 24)),
        pecas_boas(pecas_msg(false, 24)),
{
    reveal_strlit("o nome '{alias}' no idioma '{idioma}' serve a '{anterior}' e a '{atual}'");
    reveal_strlit("alias");
    reveal_strlit("idioma");
    reveal_strlit("anterior");
    reveal_strlit("atual");
    reveal_strlit("o nome '");
    reveal_strlit("' no idioma '");
    reveal_strlit("' serve a '");
    reveal_strlit("' e a '");
    reveal_strlit("'");
    lema_nomes_bons();
    reveal_with_fuel(juntar_pecas, 10);
    let ps = pecas_msg(false, 24);
    assert("o nome '{alias}' no idioma '{idioma}' serve a '{anterior}' e a '{atual}'"@ =~= juntar_pecas(ps));
    assert forall|i: int| 0 <= i < ps.len() implies match #[trigger] ps[i] {
        Peca::Texto(t) => limpo(t),
        Peca::Marca(m) => bom_nome(m),
    } by {
        if let Peca::Texto(t) = ps[i] {
            assert(!t.contains('{') && !t.contains('⟨'));
        }
    }
}

proof fn lema_molde_pt_25()
    ensures
        MSG_PT@[25].1@ == juntar_pecas(pecas_msg(false, 25)),
        pecas_boas(pecas_msg(false, 25)),
{
    reveal_strlit("o campo '{canonico}' não tem nome no idioma '{idioma}'");
    reveal_strlit("canonico");
    reveal_strlit("idioma");
    reveal_strlit("o campo '");
    reveal_strlit("' não tem nome no idioma '");
    reveal_strlit("'");
    lema_nomes_bons();
    reveal_with_fuel(juntar_pecas, 6);
    let ps = pecas_msg(false, 25);
    assert("o campo '{canonico}' não tem nome no idioma '{idioma}'"@ =~= juntar_pecas(ps));
    assert forall|i: int| 0 <= i < ps.len() implies match #[trigger] ps[i] {
        Peca::Texto(t) => limpo(t),
        Peca::Marca(m) => bom_nome(m),
    } by {
        if let Peca::Texto(t) = ps[i] {
            assert(!t.contains('{') && !t.contains('⟨'));
        }
    }
}

proof fn lema_moldes(n: nat)
    requires
        n < 26,
    ensures
        MSG_EN@[n as int].1@ == juntar_pecas(pecas_msg(true, n)),
        pecas_boas(pecas_msg(true, n)),
        MSG_PT@[n as int].1@ == juntar_pecas(pecas_msg(false, n)),
        pecas_boas(pecas_msg(false, n)),
{
    if n == 0 {
        lema_molde_en_0();
        lema_molde_pt_0();
    } else if n == 1 {
        lema_molde_en_1();
        lema_molde_pt_1();
    } else if n == 2 {
        lema_molde_en_2();
        lema_molde_pt_2();
    } else if n == 3 {
        lema_molde_en_3();
        lema_molde_pt_3();
    } else if n == 4 {
        lema_molde_en_4();
        lema_molde_pt_4();
    } else if n == 5 {
        lema_molde_en_5();
        lema_molde_pt_5();
    } else if n == 6 {
        lema_molde_en_6();
        lema_molde_pt_6();
    } else if n == 7 {
        lema_molde_en_7();
        lema_molde_pt_7();
    } else if n == 8 {
        lema_molde_en_8();
        lema_molde_pt_8();
    } else if n == 9 {
        lema_molde_en_9();
        lema_molde_pt_9();
    } else if n == 10 {
        lema_molde_en_10();
        lema_molde_pt_10();
    } else if n == 11 {
        lema_molde_en_11();
        lema_molde_pt_11();
    } else if n == 12 {
        lema_molde_en_12();
        lema_molde_pt_12();
    } else if n == 13 {
        lema_molde_en_13();
        lema_molde_pt_13();
    } else if n == 14 {
        lema_molde_en_14();
        lema_molde_pt_14();
    } else if n == 15 {
        lema_molde_en_15();
        lema_molde_pt_15();
    } else if n == 16 {
        lema_molde_en_16();
        lema_molde_pt_16();
    } else if n == 17 {
        lema_molde_en_17();
        lema_molde_pt_17();
    } else if n == 18 {
        lema_molde_en_18();
        lema_molde_pt_18();
    } else if n == 19 {
        lema_molde_en_19();
        lema_molde_pt_19();
    } else if n == 20 {
        lema_molde_en_20();
        lema_molde_pt_20();
    } else if n == 21 {
        lema_molde_en_21();
        lema_molde_pt_21();
    } else if n == 22 {
        lema_molde_en_22();
        lema_molde_pt_22();
    } else if n == 23 {
        lema_molde_en_23();
        lema_molde_pt_23();
    } else if n == 24 {
        lema_molde_en_24();
        lema_molde_pt_24();
    } else if n == 25 {
        lema_molde_en_25();
        lema_molde_pt_25();
    }
}

/// Os textos que uma mensagem carrega, todos limpos.
pub open spec fn mensagem_limpa(m: MsgV) -> bool {
    match m {
        MsgV::ArquivoIlegivel(e) => limpo(e),
        MsgV::TomlInvalido(e) => limpo(e),
        MsgV::NaoEhTabelaRaiz => true,
        MsgV::SchemaIdAusente => true,
        MsgV::VersaoDivergente { no_arquivo, carregado } => limpo(no_arquivo) && limpo(carregado),
        MsgV::SchemaSemCampoCanonico(c) => limpo(c),
        MsgV::SchemaSemAliasDoCampo { campo, idioma } => limpo(campo) && limpo(idioma),
        MsgV::TipoAusente => true,
        MsgV::TipoSemCamposEspecificos(t) => limpo(t),
        MsgV::EsperadoTexto(e) => limpo(e),
        MsgV::EsperadoListaTextos(e) => limpo(e),
        MsgV::EsperadoListaTabelas(e) => limpo(e),
        MsgV::EsperadoTabela(e) => limpo(e),
        MsgV::ListaVaziaObrigatoria => true,
        MsgV::EnumInvalido { valor, idioma, permitidos, em_outro_idioma } => {
            &&& limpo(valor)
            &&& limpo(idioma)
            &&& forall|k: int| 0 <= k < permitidos.len() ==> limpo(#[trigger] permitidos[k])
            &&& match em_outro_idioma {
                Some(p) => limpo(p.0) && limpo(p.1),
                None => true,
            }
        },
        MsgV::AliasDeOutroIdioma { canonico, idioma_do_alias, idioma_declarado, .. } => limpo(canonico) && limpo(
            idioma_do_alias,
        ) && limpo(idioma_declarado),
        MsgV::CampoDesconhecido { idioma, .. } => limpo(idioma),
        MsgV::ObrigatorioAusente { canonico, .. } => limpo(canonico),
        MsgV::TipoDadoDesconhecido(t) => limpo(t),
        MsgV::SemSubcampos => true,
        MsgV::AliasAmbiguo { alias, idioma, anterior, atual } => limpo(alias) && limpo(idioma) && limpo(anterior) && limpo(
            atual,
        ),
        MsgV::SemAliasNoIdioma { canonico, idioma } => limpo(canonico) && limpo(idioma),
    }
}

proof fn lema_concat_limpo(a: Seq<char>, b: Seq<char>)
    requires
        limpo(a),
        limpo(b),
    ensures
        limpo(a + b),
{
    assert forall|c: char| (c == '{' || c == '⟨') implies !(a + b).contains(c) by {
        if (a + b).contains(c) {
            let k = choose|k: int| 0 <= k < (a + b).len() && (a + b)[k] == c;
            if k < a.len() {
                assert(a[k] == c);
                assert(a.contains(c));
            } else {
                assert(b[k - a.len()] == c);
                assert(b.contains(c));
            }
        }
    }
}

proof fn lema_unir_limpo(l: Seq<Seq<char>>, sep: Seq<char>)
    requires
        limpo(sep),
        forall|k: int| 0 <= k < l.len() ==> limpo(#[trigger] l[k]),
    ensures
        limpo(unir(l, sep)),
    decreases l.len(),
{
    if l.len() == 0 {
        assert(!Seq::<char>::empty().contains('{') && !Seq::<char>::empty().contains('⟨'));
    } else if l.len() > 1 {
        let ini = l.drop_last();
        assert forall|k: int| 0 <= k < ini.len() implies limpo(#[trigger] ini[k]) by {
            assert(ini[k] == l[k]);
        }
        lema_unir_limpo(ini, sep);
        assert(limpo(l[l.len() - 1]));
        lema_concat_limpo(unir(ini, sep), sep);
        lema_concat_limpo(unir(ini, sep) + sep, l.last());
    } else {
        assert(limpo(l[0]));
    }
}

proof fn lema_args_limpos(m: MsgV)
    requires
        mensagem_limpa(m),
    ensures
        forall|j: int| 0 <= j < args_msg(m).len() ==> bom_nome(#[trigger] args_msg(m)[j].0) && limpo(args_msg(m)[j].1),
{
    lema_nomes_bons();
    reveal_strlit(", ");
    reveal_strlit("schema_id");
    assert(", "@ =~= seq![',', ' ']);
    assert(CAMPO_SCHEMA_ID@ =~= seq!['s', 'c', 'h', 'e', 'm', 'a', '_', 'i', 'd']);
    assert(limpo(", "@));
    assert(limpo(CAMPO_SCHEMA_ID@));
    if let MsgV::EnumInvalido { permitidos, .. } = m {
        lema_unir_limpo(permitidos, ", "@);
    }
    let a = args_msg(m);
    assert forall|j: int| 0 <= j < a.len() implies bom_nome(#[trigger] a[j].0) && limpo(a[j].1) by {
        if let MsgV::EnumInvalido { em_outro_idioma, .. } = m {
            if em_outro_idioma is Some {
                assert(j < 5);
            }
        }
    }
}

proof fn lema_marcas_cobertas(m: MsgV, en: bool)
    ensures
        marcas_cobertas(pecas_msg(en, especie(m)), args_msg(m)),
{
    let ps = pecas_msg(en, especie(m));
    let a = args_msg(m);
    assert forall|i: int| 0 <= i < ps.len() implies match #[trigger] ps[i] {
        Peca::Marca(n) => exists|j: int| 0 <= j < a.len() && #[trigger] a[j].0 == n,
        Peca::Texto(_) => true,
    } by {
        if let Peca::Marca(n) = ps[i] {
            assert(a.len() <= 5);
            assert(a.len() > 0 ==> a[0].0 == a[0].0);
            if a.len() > 0 && a[0].0 == n {
            } else if a.len() > 1 && a[1].0 == n {
            } else if a.len() > 2 && a[2].0 == n {
            } else if a.len() > 3 && a[3].0 == n {
            } else if a.len() > 4 && a[4].0 == n {
            } else {
                assert(false);
            }
        }
    }
}

proof fn lema_texto_do_catalogo(n: nat, c: Seq<char>)
    requires
        n < 26,
        c == "en"@ || c == "pt"@,
    ensures
        texto_v(embutidos(), c, Secao::Msg, chave_de_especie(n)) == if c == "en"@ {
            MSG_EN@[n as int].1@
        } else {
            MSG_PT@[n as int].1@
        },
{
    lema_catalogos_embutidos();
    reveal_strlit("en");
    reveal_strlit("pt");
    assert("en"@ != "pt"@) by {
        assert("en"@[0] != "pt"@[0]);
    }
    let k = chave_de_especie(n);
    assert forall|j: int| 0 <= j < 26 implies #[trigger] pares(MSG_EN@)[j].0 == chave_de_especie(j as nat)
        && pares(MSG_PT@)[j].0 == chave_de_especie(j as nat) by {
        assert(j == 0 || j == 1 || j == 2 || j == 3 || j == 4 || j == 5 || j == 6 || j == 7 || j == 8 || j == 9 || j == 10
            || j == 11 || j == 12 || j == 13 || j == 14 || j == 15 || j == 16 || j == 17 || j == 18 || j == 19 || j == 20
            || j == 21 || j == 22 || j == 23 || j == 24 || j == 25);
    }
    assert forall|j: int| n < j < 26 implies #[trigger] pares(MSG_EN@)[j].0 != k by {
        lema_chaves_distintas(j as nat, n);
        assert(pares(MSG_EN@)[j].0 == chave_de_especie(j as nat));
    }
    assert forall|j: int| n < j < 26 implies #[trigger] pares(MSG_PT@)[j].0 != k by {
        lema_chaves_distintas(j as nat, n);
        assert(pares(MSG_EN@)[j].0 == chave_de_especie(j as nat));
    }
    assert(pares(MSG_EN@).len() == 26 && pares(MSG_PT@).len() == 26);
    assert(pares(MSG_EN@)[n as int].0 == k && pares(MSG_PT@)[n as int].0 == k);
    lei_inserir_todos_buscar(Seq::empty(), pares(MSG_EN@), k);
    lei_inserir_todos_buscar(Seq::empty(), pares(MSG_PT@), k);
    assert(pares(MSG_EN@)[n as int].1 == MSG_EN@[n as int].1@);
    assert(pares(MSG_PT@)[n as int].1 == MSG_PT@[n as int].1@);
    assert(crate::mapa::buscar(crate::mapa::inserir_todos(Seq::empty(), pares(MSG_EN@)), k) == Some(MSG_EN@[n as int].1@));
    assert(crate::mapa::buscar(crate::mapa::inserir_todos(Seq::empty(), pares(MSG_PT@)), k) == Some(MSG_PT@[n as int].1@));
}

/// Toda mensagem de diagnóstico, em cada catálogo embutido, sai completa:
/// sem chave ausente (`⟨…⟩`) e sem marcador por preencher (`{…}`), desde
/// que os textos que ela carrega não tragam esses caracteres.
pub proof fn lei_toda_mensagem_renderiza_completa(m: MsgV, c: Seq<char>)
    requires
        c == "en"@ || c == "pt"@,
        mensagem_limpa(m),
    ensures
        limpo(interpolar(texto_v(embutidos(), c, Secao::Msg, chave_msg(m)), args_msg(m))),
{
    lema_chave_da_especie(m);
    let n = especie(m);
    lema_texto_do_catalogo(n, c);
    lema_moldes(n);
    lema_args_limpos(m);
    let a = args_msg(m);
    assert(forall|j: int| 0 <= j < a.len() ==> bom_nome(#[trigger] a[j].0) && limpo(a[j].1));
    let en = c == "en"@;
    lema_marcas_cobertas(m, en);
    lema_interpolar_limpo(pecas_msg(en, n), args_msg(m));
}

proof fn lema_achada_sse_inserida<V>(novas: Seq<(Seq<char>, V)>, k: Seq<char>)
    ensures
        (buscar(inserir_todos(Seq::empty(), novas), k) is Some) <==> exists|i: int| 0 <= i < novas.len() && #[trigger] novas[i].0 == k,
{
    if exists|i: int| 0 <= i < novas.len() && #[trigger] novas[i].0 == k {
        let i = choose|i: int| 0 <= i < novas.len() && #[trigger] novas[i].0 == k;
        lema_inserir_todos_presente(Seq::empty(), novas, k, i);
    } else {
        lei_inserir_todos_buscar(Seq::empty(), novas, k);
    }
}

proof fn lema_mesmas_chaves_nas_listas<V, W>(a: Seq<(Seq<char>, V)>, b: Seq<(Seq<char>, W)>, k: Seq<char>)
    requires
        a.len() == b.len(),
        forall|i: int| 0 <= i < a.len() ==> #[trigger] a[i].0 == b[i].0,
    ensures
        (buscar(inserir_todos(Seq::empty(), a), k) is Some) <==> (buscar(inserir_todos(Seq::empty(), b), k) is Some),
{
    lema_achada_sse_inserida(a, k);
    lema_achada_sse_inserida(b, k);
    if exists|i: int| 0 <= i < a.len() && #[trigger] a[i].0 == k {
        let i = choose|i: int| 0 <= i < a.len() && #[trigger] a[i].0 == k;
        assert(b[i].0 == k);
    }
    if exists|i: int| 0 <= i < b.len() && #[trigger] b[i].0 == k {
        let i = choose|i: int| 0 <= i < b.len() && #[trigger] b[i].0 == k;
        assert(a[i].0 == k);
    }
}

/// Os dois catálogos embutidos têm as mesmas chaves em cada seção: uma
/// chave tem texto (ou formas de plural) em `en` exatamente quando tem em
/// `pt`.
pub proof fn lei_catalogos_embutidos_tem_as_mesmas_chaves(s: Secao, k: Seq<char>)
    ensures
        (procurar(embutidos(), "en"@, s, k) is Some) <==> (procurar(embutidos(), "pt"@, s, k) is Some),
        (procurar_plural(embutidos(), "en"@, k) is Some) <==> (procurar_plural(embutidos(), "pt"@, k) is Some),
{
    lema_catalogos_embutidos();
    assert forall|i: int| 0 <= i < pares(UI_EN@).len() implies #[trigger] pares(UI_EN@)[i].0 == pares(UI_PT@)[i].0 by {
        assert(i == 0 || i == 1 || i == 2 || i == 3 || i == 4 || i == 5 || i == 6 || i == 7 || i == 8 || i == 9 || i == 10 || i == 11 || i == 12 || i == 13 || i == 14 || i == 15 || i == 16 || i == 17 || i == 18 || i == 19 || i == 20 || i == 21 || i == 22 || i == 23 || i == 24 || i == 25 || i == 26 || i == 27);
    }
    assert forall|i: int| 0 <= i < pares(MSG_EN@).len() implies #[trigger] pares(MSG_EN@)[i].0 == pares(MSG_PT@)[i].0 by {
        assert(i == 0 || i == 1 || i == 2 || i == 3 || i == 4 || i == 5 || i == 6 || i == 7 || i == 8 || i == 9 || i == 10 || i == 11 || i == 12 || i == 13 || i == 14 || i == 15 || i == 16 || i == 17 || i == 18 || i == 19 || i == 20 || i == 21 || i == 22 || i == 23 || i == 24 || i == 25);
    }
    assert forall|i: int| 0 <= i < trincas(PLURAL_EN@).len() implies #[trigger] trincas(PLURAL_EN@)[i].0 == trincas(PLURAL_PT@)[i].0 by {
        assert(i == 0 || i == 1 || i == 2);
    }
    lema_mesmas_chaves_nas_listas(pares(UI_EN@), pares(UI_PT@), k);
    lema_mesmas_chaves_nas_listas(pares(MSG_EN@), pares(MSG_PT@), k);
    lema_mesmas_chaves_nas_listas(trincas(PLURAL_EN@), trincas(PLURAL_PT@), k);
}

/// Os pedaços dos gabaritos de interface usados pelos erros de uso e de
/// schema e pelo texto de uso, pela posição na tabela.
pub open spec fn pecas_ui(en: bool, i: nat) -> Seq<Peca> {
    if en {
        if i == 19 {
            seq![Peca::Texto("Usage: reqMeshVal <schema> <file1> [file2 ...] [options]\n\nOptions:\n  -i, --idioma, --lang <code|auto>  message language (auto: the one each file declares)\n  -l, --log <path>                  also write the report to a file\n  -c, --catalogos <dir>             load message catalogs from a directory\n      --idiomas                     list the available languages\n  -h, --help                        show this help"@)]
        } else if i == 22 {
            seq![Peca::Texto("reqMeshVal: give the schema and at least one file."@)]
        } else if i == 23 {
            seq![Peca::Texto("reqMeshVal: option --log needs a path."@)]
        } else if i == 24 {
            seq![Peca::Texto("reqMeshVal: option --idioma needs a language code or 'auto'."@)]
        } else if i == 25 {
            seq![Peca::Texto("reqMeshVal: no catalog for language '"@), Peca::Marca("idioma"@), Peca::Texto("'; available: "@), Peca::Marca("disponiveis"@), Peca::Texto("."@)]
        } else if i == 26 {
            seq![Peca::Texto("reqMeshVal: could not read the schema '"@), Peca::Marca("caminho"@), Peca::Texto("': "@), Peca::Marca("erro"@)]
        } else {
            seq![Peca::Texto("reqMeshVal: invalid schema '"@), Peca::Marca("caminho"@), Peca::Texto("': "@), Peca::Marca("erro"@)]
        }
    } else {
        if i == 19 {
            seq![Peca::Texto("Uso: reqMeshVal <schema> <arquivo1> [arquivo2 ...] [opções]\n\nOpções:\n  -i, --idioma, --lang <código|auto>  idioma das mensagens (auto: o que cada arquivo declara)\n  -l, --log <caminho>                 grava o relatório também em arquivo\n  -c, --catalogos <dir>               carrega catálogos de mensagens de um diretório\n      --idiomas                       lista os idiomas disponíveis\n  -h, --help                          mostra esta ajuda"@)]
        } else if i == 22 {
            seq![Peca::Texto("reqMeshVal: informe o schema e ao menos um arquivo."@)]
        } else if i == 23 {
            seq![Peca::Texto("reqMeshVal: a opção --log exige um caminho."@)]
        } else if i == 24 {
            seq![Peca::Texto("reqMeshVal: a opção --idioma exige um código de idioma ou 'auto'."@)]
        } else if i == 25 {
            seq![Peca::Texto("reqMeshVal: idioma '"@), Peca::Marca("idioma"@), Peca::Texto("' sem catálogo; disponíveis: "@), Peca::Marca("disponiveis"@), Peca::Texto("."@)]
        } else if i == 26 {
            seq![Peca::Texto("reqMeshVal: não foi possível ler o schema '"@), Peca::Marca("caminho"@), Peca::Texto("': "@), Peca::Marca("erro"@)]
        } else {
            seq![Peca::Texto("reqMeshVal: schema '"@), Peca::Marca("caminho"@), Peca::Texto("' inválido: "@), Peca::Marca("erro"@)]
        }
    }
}

proof fn lema_molde_ui_en_19()
    ensures
        UI_EN@[19].1@ == juntar_pecas(pecas_ui(true, 19)),
        pecas_boas(pecas_ui(true, 19)),
{
    reveal_strlit("Usage: reqMeshVal <schema> <file1> [file2 ...] [options]\n\nOptions:\n  -i, --idioma, --lang <code|auto>  message language (auto: the one each file declares)\n  -l, --log <path>                  also write the report to a file\n  -c, --catalogos <dir>             load message catalogs from a directory\n      --idiomas                     list the available languages\n  -h, --help                        show this help");
    reveal_strlit("Usage: reqMeshVal <schema> <file1> [file2 ...] [options]\n\nOptions:\n  -i, --idioma, --lang <code|auto>  message language (auto: the one each file declares)\n  -l, --log <path>                  also write the report to a file\n  -c, --catalogos <dir>             load message catalogs from a directory\n      --idiomas                     list the available languages\n  -h, --help                        show this help");
    lema_nomes_bons();
    reveal_with_fuel(juntar_pecas, 2);
    let ps = pecas_ui(true, 19);
    assert("Usage: reqMeshVal <schema> <file1> [file2 ...] [options]\n\nOptions:\n  -i, --idioma, --lang <code|auto>  message language (auto: the one each file declares)\n  -l, --log <path>                  also write the report to a file\n  -c, --catalogos <dir>             load message catalogs from a directory\n      --idiomas                     list the available languages\n  -h, --help                        show this help"@ =~= juntar_pecas(ps));
    assert forall|i: int| 0 <= i < ps.len() implies match #[trigger] ps[i] {
        Peca::Texto(t) => limpo(t),
        Peca::Marca(m) => bom_nome(m),
    } by {
        if let Peca::Texto(t) = ps[i] {
            assert(!t.contains('{') && !t.contains('⟨'));
        }
    }
}

proof fn lema_molde_ui_en_22()
    ensures
        UI_EN@[22].1@ == juntar_pecas(pecas_ui(true, 22)),
        pecas_boas(pecas_ui(true, 22)),
{
    reveal_strlit("reqMeshVal: give the schema and at least one file.");
    reveal_strlit("reqMeshVal: give the schema and at least one file.");
    lema_nomes_bons();
    reveal_with_fuel(juntar_pecas, 2);
    let ps = pecas_ui(true, 22);
    assert("reqMeshVal: give the schema and at least one file."@ =~= juntar_pecas(ps));
    assert forall|i: int| 0 <= i < ps.len() implies match #[trigger] ps[i] {
        Peca::Texto(t) => limpo(t),
        Peca::Marca(m) => bom_nome(m),
    } by {
        if let Peca::Texto(t) = ps[i] {
            assert(!t.contains('{') && !t.contains('⟨'));
        }
    }
}

proof fn lema_molde_ui_en_23()
    ensures
        UI_EN@[23].1@ == juntar_pecas(pecas_ui(true, 23)),
        pecas_boas(pecas_ui(true, 23)),
{
    reveal_strlit("reqMeshVal: option --log needs a path.");
    reveal_strlit("reqMeshVal: option --log needs a path.");
    lema_nomes_bons();
    reveal_with_fuel(juntar_pecas, 2);
    let ps = pecas_ui(true, 23);
    assert("reqMeshVal: option --log needs a path."@ =~= juntar_pecas(ps));
    assert forall|i: int| 0 <= i < ps.len() implies match #[trigger] ps[i] {
        Peca::Texto(t) => limpo(t),
        Peca::Marca(m) => bom_nome(m),
    } by {
        if let Peca::Texto(t) = ps[i] {
            assert(!t.contains('{') && !t.contains('⟨'));
        }
    }
}

proof fn lema_molde_ui_en_24()
    ensures
        UI_EN@[24].1@ == juntar_pecas(pecas_ui(true, 24)),
        pecas_boas(pecas_ui(true, 24)),
{
    reveal_strlit("reqMeshVal: option --idioma needs a language code or 'auto'.");
    reveal_strlit("reqMeshVal: option --idioma needs a language code or 'auto'.");
    lema_nomes_bons();
    reveal_with_fuel(juntar_pecas, 2);
    let ps = pecas_ui(true, 24);
    assert("reqMeshVal: option --idioma needs a language code or 'auto'."@ =~= juntar_pecas(ps));
    assert forall|i: int| 0 <= i < ps.len() implies match #[trigger] ps[i] {
        Peca::Texto(t) => limpo(t),
        Peca::Marca(m) => bom_nome(m),
    } by {
        if let Peca::Texto(t) = ps[i] {
            assert(!t.contains('{') && !t.contains('⟨'));
        }
    }
}

proof fn lema_molde_ui_en_25()
    ensures
        UI_EN@[25].1@ == juntar_pecas(pecas_ui(true, 25)),
        pecas_boas(pecas_ui(true, 25)),
{
    reveal_strlit("reqMeshVal: no catalog for language '{idioma}'; available: {disponiveis}.");
    reveal_strlit("reqMeshVal: no catalog for language '");
    reveal_strlit("idioma");
    reveal_strlit("'; available: ");
    reveal_strlit("disponiveis");
    reveal_strlit(".");
    lema_nomes_bons();
    reveal_with_fuel(juntar_pecas, 6);
    let ps = pecas_ui(true, 25);
    assert("reqMeshVal: no catalog for language '{idioma}'; available: {disponiveis}."@ =~= juntar_pecas(ps));
    assert forall|i: int| 0 <= i < ps.len() implies match #[trigger] ps[i] {
        Peca::Texto(t) => limpo(t),
        Peca::Marca(m) => bom_nome(m),
    } by {
        if let Peca::Texto(t) = ps[i] {
            assert(!t.contains('{') && !t.contains('⟨'));
        }
    }
}

proof fn lema_molde_ui_en_26()
    ensures
        UI_EN@[26].1@ == juntar_pecas(pecas_ui(true, 26)),
        pecas_boas(pecas_ui(true, 26)),
{
    reveal_strlit("reqMeshVal: could not read the schema '{caminho}': {erro}");
    reveal_strlit("reqMeshVal: could not read the schema '");
    reveal_strlit("caminho");
    reveal_strlit("': ");
    reveal_strlit("erro");
    lema_nomes_bons();
    reveal_with_fuel(juntar_pecas, 5);
    let ps = pecas_ui(true, 26);
    assert("reqMeshVal: could not read the schema '{caminho}': {erro}"@ =~= juntar_pecas(ps));
    assert forall|i: int| 0 <= i < ps.len() implies match #[trigger] ps[i] {
        Peca::Texto(t) => limpo(t),
        Peca::Marca(m) => bom_nome(m),
    } by {
        if let Peca::Texto(t) = ps[i] {
            assert(!t.contains('{') && !t.contains('⟨'));
        }
    }
}

proof fn lema_molde_ui_en_27()
    ensures
        UI_EN@[27].1@ == juntar_pecas(pecas_ui(true, 27)),
        pecas_boas(pecas_ui(true, 27)),
{
    reveal_strlit("reqMeshVal: invalid schema '{caminho}': {erro}");
    reveal_strlit("reqMeshVal: invalid schema '");
    reveal_strlit("caminho");
    reveal_strlit("': ");
    reveal_strlit("erro");
    lema_nomes_bons();
    reveal_with_fuel(juntar_pecas, 5);
    let ps = pecas_ui(true, 27);
    assert("reqMeshVal: invalid schema '{caminho}': {erro}"@ =~= juntar_pecas(ps));
    assert forall|i: int| 0 <= i < ps.len() implies match #[trigger] ps[i] {
        Peca::Texto(t) => limpo(t),
        Peca::Marca(m) => bom_nome(m),
    } by {
        if let Peca::Texto(t) = ps[i] {
            assert(!t.contains('{') && !t.contains('⟨'));
        }
    }
}

proof fn lema_molde_ui_pt_19()
    ensures
        UI_PT@[19].1@ == juntar_pecas(pecas_ui(false, 19)),
        pecas_boas(pecas_ui(false, 19)),
{
    reveal_strlit("Uso: reqMeshVal <schema> <arquivo1> [arquivo2 ...] [opções]\n\nOpções:\n  -i, --idioma, --lang <código|auto>  idioma das mensagens (auto: o que cada arquivo declara)\n  -l, --log <caminho>                 grava o relatório também em arquivo\n  -c, --catalogos <dir>               carrega catálogos de mensagens de um diretório\n      --idiomas                       lista os idiomas disponíveis\n  -h, --help                          mostra esta ajuda");
    reveal_strlit("Uso: reqMeshVal <schema> <arquivo1> [arquivo2 ...] [opções]\n\nOpções:\n  -i, --idioma, --lang <código|auto>  idioma das mensagens (auto: o que cada arquivo declara)\n  -l, --log <caminho>                 grava o relatório também em arquivo\n  -c, --catalogos <dir>               carrega catálogos de mensagens de um diretório\n      --idiomas                       lista os idiomas disponíveis\n  -h, --help                          mostra esta ajuda");
    lema_nomes_bons();
    reveal_with_fuel(juntar_pecas, 2);
    let ps = pecas_ui(false, 19);
    assert("Uso: reqMeshVal <schema> <arquivo1> [arquivo2 ...] [opções]\n\nOpções:\n  -i, --idioma, --lang <código|auto>  idioma das mensagens (auto: o que cada arquivo declara)\n  -l, --log <caminho>                 grava o relatório também em arquivo\n  -c, --catalogos <dir>               carrega catálogos de mensagens de um diretório\n      --idiomas                       lista os idiomas disponíveis\n  -h, --help                          mostra esta ajuda"@ =~= juntar_pecas(ps));
    assert forall|i: int| 0 <= i < ps.len() implies match #[trigger] ps[i] {
        Peca::Texto(t) => limpo(t),
        Peca::Marca(m) => bom_nome(m),
    } by {
        if let Peca::Texto(t) = ps[i] {
            assert(!t.contains('{') && !t.contains('⟨'));
        }
    }
}

proof fn lema_molde_ui_pt_22()
    ensures
        UI_PT@[22].1@ == juntar_pecas(pecas_ui(false, 22)),
        pecas_boas(pecas_ui(false, 22)),
{
    reveal_strlit("reqMeshVal: informe o schema e ao menos um arquivo.");
    reveal_strlit("reqMeshVal: informe o schema e ao menos um arquivo.");
    lema_nomes_bons();
    reveal_with_fuel(juntar_pecas, 2);
    let ps = pecas_ui(false, 22);
    assert("reqMeshVal: informe o schema e ao menos um arquivo."@ =~= juntar_pecas(ps));
    assert forall|i: int| 0 <= i < ps.len() implies match #[trigger] ps[i] {
        Peca::Texto(t) => limpo(t),
        Peca::Marca(m) => bom_nome(m),
    } by {
        if let Peca::Texto(t) = ps[i] {
            assert(!t.contains('{') && !t.contains('⟨'));
        }
    }
}

proof fn lema_molde_ui_pt_23()
    ensures
        UI_PT@[23].1@ == juntar_pecas(pecas_ui(false, 23)),
        pecas_boas(pecas_ui(false, 23)),
{
    reveal_strlit("reqMeshVal: a opção --log exige um caminho.");
    reveal_strlit("reqMeshVal: a opção --log exige um caminho.");
    lema_nomes_bons();
    reveal_with_fuel(juntar_pecas, 2);
    let ps = pecas_ui(false, 23);
    assert("reqMeshVal: a opção --log exige um caminho."@ =~= juntar_pecas(ps));
    assert forall|i: int| 0 <= i < ps.len() implies match #[trigger] ps[i] {
        Peca::Texto(t) => limpo(t),
        Peca::Marca(m) => bom_nome(m),
    } by {
        if let Peca::Texto(t) = ps[i] {
            assert(!t.contains('{') && !t.contains('⟨'));
        }
    }
}

proof fn lema_molde_ui_pt_24()
    ensures
        UI_PT@[24].1@ == juntar_pecas(pecas_ui(false, 24)),
        pecas_boas(pecas_ui(false, 24)),
{
    reveal_strlit("reqMeshVal: a opção --idioma exige um código de idioma ou 'auto'.");
    reveal_strlit("reqMeshVal: a opção --idioma exige um código de idioma ou 'auto'.");
    lema_nomes_bons();
    reveal_with_fuel(juntar_pecas, 2);
    let ps = pecas_ui(false, 24);
    assert("reqMeshVal: a opção --idioma exige um código de idioma ou 'auto'."@ =~= juntar_pecas(ps));
    assert forall|i: int| 0 <= i < ps.len() implies match #[trigger] ps[i] {
        Peca::Texto(t) => limpo(t),
        Peca::Marca(m) => bom_nome(m),
    } by {
        if let Peca::Texto(t) = ps[i] {
            assert(!t.contains('{') && !t.contains('⟨'));
        }
    }
}

proof fn lema_molde_ui_pt_25()
    ensures
        UI_PT@[25].1@ == juntar_pecas(pecas_ui(false, 25)),
        pecas_boas(pecas_ui(false, 25)),
{
    reveal_strlit("reqMeshVal: idioma '{idioma}' sem catálogo; disponíveis: {disponiveis}.");
    reveal_strlit("reqMeshVal: idioma '");
    reveal_strlit("idioma");
    reveal_strlit("' sem catálogo; disponíveis: ");
    reveal_strlit("disponiveis");
    reveal_strlit(".");
    lema_nomes_bons();
    reveal_with_fuel(juntar_pecas, 6);
    let ps = pecas_ui(false, 25);
    assert("reqMeshVal: idioma '{idioma}' sem catálogo; disponíveis: {disponiveis}."@ =~= juntar_pecas(ps));
    assert forall|i: int| 0 <= i < ps.len() implies match #[trigger] ps[i] {
        Peca::Texto(t) => limpo(t),
        Peca::Marca(m) => bom_nome(m),
    } by {
        if let Peca::Texto(t) = ps[i] {
            assert(!t.contains('{') && !t.contains('⟨'));
        }
    }
}

proof fn lema_molde_ui_pt_26()
    ensures
        UI_PT@[26].1@ == juntar_pecas(pecas_ui(false, 26)),
        pecas_boas(pecas_ui(false, 26)),
{
    reveal_strlit("reqMeshVal: não foi possível ler o schema '{caminho}': {erro}");
    reveal_strlit("reqMeshVal: não foi possível ler o schema '");
    reveal_strlit("caminho");
    reveal_strlit("': ");
    reveal_strlit("erro");
    lema_nomes_bons();
    reveal_with_fuel(juntar_pecas, 5);
    let ps = pecas_ui(false, 26);
    assert("reqMeshVal: não foi possível ler o schema '{caminho}': {erro}"@ =~= juntar_pecas(ps));
    assert forall|i: int| 0 <= i < ps.len() implies match #[trigger] ps[i] {
        Peca::Texto(t) => limpo(t),
        Peca::Marca(m) => bom_nome(m),
    } by {
        if let Peca::Texto(t) = ps[i] {
            assert(!t.contains('{') && !t.contains('⟨'));
        }
    }
}

proof fn lema_molde_ui_pt_27()
    ensures
        UI_PT@[27].1@ == juntar_pecas(pecas_ui(false, 27)),
        pecas_boas(pecas_ui(false, 27)),
{
    reveal_strlit("reqMeshVal: schema '{caminho}' inválido: {erro}");
    reveal_strlit("reqMeshVal: schema '");
    reveal_strlit("caminho");
    reveal_strlit("' inválido: ");
    reveal_strlit("erro");
    lema_nomes_bons();
    reveal_with_fuel(juntar_pecas, 5);
    let ps = pecas_ui(false, 27);
    assert("reqMeshVal: schema '{caminho}' inválido: {erro}"@ =~= juntar_pecas(ps));
    assert forall|i: int| 0 <= i < ps.len() implies match #[trigger] ps[i] {
        Peca::Texto(t) => limpo(t),
        Peca::Marca(m) => bom_nome(m),
    } by {
        if let Peca::Texto(t) = ps[i] {
            assert(!t.contains('{') && !t.contains('⟨'));
        }
    }
}

proof fn lema_chave_ui_ultima_19()
    ensures
        forall|j: int| 19 < j < 28 ==> #[trigger] pares(UI_EN@)[j].0 != pares(UI_EN@)[19].0,
        forall|j: int| 19 < j < 28 ==> #[trigger] pares(UI_PT@)[j].0 != pares(UI_EN@)[19].0,
        pares(UI_PT@)[19].0 == pares(UI_EN@)[19].0,
        pares(UI_EN@).len() == 28 && pares(UI_PT@).len() == 28,
{
    reveal_strlit("uso");
    reveal_strlit("catalogo-invalido");
    reveal_strlit("log-nao-gravado");
    reveal_strlit("cli-faltam-args");
    reveal_strlit("cli-log-sem-caminho");
    reveal_strlit("cli-idioma-sem-valor");
    reveal_strlit("cli-idioma-invalido");
    reveal_strlit("schema-ilegivel");
    reveal_strlit("schema-invalido");
    assert("uso"@.len() != "catalogo-invalido"@.len());
    assert("uso"@.len() != "log-nao-gravado"@.len());
    assert("uso"@.len() != "cli-faltam-args"@.len());
    assert("uso"@.len() != "cli-log-sem-caminho"@.len());
    assert("uso"@.len() != "cli-idioma-sem-valor"@.len());
    assert("uso"@.len() != "cli-idioma-invalido"@.len());
    assert("uso"@.len() != "schema-ilegivel"@.len());
    assert("uso"@.len() != "schema-invalido"@.len());
    assert forall|j: int| 19 < j < 28 implies #[trigger] pares(UI_EN@)[j].0 != pares(UI_EN@)[19].0 && pares(UI_PT@)[j].0 != pares(UI_EN@)[19].0 by {
        assert(j == 20 || j == 21 || j == 22 || j == 23 || j == 24 || j == 25 || j == 26 || j == 27);
    }
    assert forall|j: int| 19 < j < 28 implies #[trigger] pares(UI_PT@)[j].0 != pares(UI_EN@)[19].0 by {
        assert(j == 20 || j == 21 || j == 22 || j == 23 || j == 24 || j == 25 || j == 26 || j == 27);
    }
}

proof fn lema_chave_ui_ultima_22()
    ensures
        forall|j: int| 22 < j < 28 ==> #[trigger] pares(UI_EN@)[j].0 != pares(UI_EN@)[22].0,
        forall|j: int| 22 < j < 28 ==> #[trigger] pares(UI_PT@)[j].0 != pares(UI_EN@)[22].0,
        pares(UI_PT@)[22].0 == pares(UI_EN@)[22].0,
        pares(UI_EN@).len() == 28 && pares(UI_PT@).len() == 28,
{
    reveal_strlit("cli-faltam-args");
    reveal_strlit("cli-log-sem-caminho");
    reveal_strlit("cli-idioma-sem-valor");
    reveal_strlit("cli-idioma-invalido");
    reveal_strlit("schema-ilegivel");
    reveal_strlit("schema-invalido");
    assert("cli-faltam-args"@.len() != "cli-log-sem-caminho"@.len());
    assert("cli-faltam-args"@.len() != "cli-idioma-sem-valor"@.len());
    assert("cli-faltam-args"@.len() != "cli-idioma-invalido"@.len());
    assert("cli-faltam-args"@[0] != "schema-ilegivel"@[0]);
    assert("cli-faltam-args"@[0] != "schema-invalido"@[0]);
    assert forall|j: int| 22 < j < 28 implies #[trigger] pares(UI_EN@)[j].0 != pares(UI_EN@)[22].0 && pares(UI_PT@)[j].0 != pares(UI_EN@)[22].0 by {
        assert(j == 23 || j == 24 || j == 25 || j == 26 || j == 27);
    }
    assert forall|j: int| 22 < j < 28 implies #[trigger] pares(UI_PT@)[j].0 != pares(UI_EN@)[22].0 by {
        assert(j == 23 || j == 24 || j == 25 || j == 26 || j == 27);
    }
}

proof fn lema_chave_ui_ultima_23()
    ensures
        forall|j: int| 23 < j < 28 ==> #[trigger] pares(UI_EN@)[j].0 != pares(UI_EN@)[23].0,
        forall|j: int| 23 < j < 28 ==> #[trigger] pares(UI_PT@)[j].0 != pares(UI_EN@)[23].0,
        pares(UI_PT@)[23].0 == pares(UI_EN@)[23].0,
        pares(UI_EN@).len() == 28 && pares(UI_PT@).len() == 28,
{
    reveal_strlit("cli-log-sem-caminho");
    reveal_strlit("cli-idioma-sem-valor");
    reveal_strlit("cli-idioma-invalido");
    reveal_strlit("schema-ilegivel");
    reveal_strlit("schema-invalido");
    assert("cli-log-sem-caminho"@.len() != "cli-idioma-sem-valor"@.len());
    assert("cli-log-sem-caminho"@[4] != "cli-idioma-invalido"@[4]);
    assert("cli-log-sem-caminho"@.len() != "schema-ilegivel"@.len());
    assert("cli-log-sem-caminho"@.len() != "schema-invalido"@.len());
    assert forall|j: int| 23 < j < 28 implies #[trigger] pares(UI_EN@)[j].0 != pares(UI_EN@)[23].0 && pares(UI_PT@)[j].0 != pares(UI_EN@)[23].0 by {
        assert(j == 24 || j == 25 || j == 26 || j == 27);
    }
    assert forall|j: int| 23 < j < 28 implies #[trigger] pares(UI_PT@)[j].0 != pares(UI_EN@)[23].0 by {
        assert(j == 24 || j == 25 || j == 26 || j == 27);
    }
}

proof fn lema_chave_ui_ultima_24()
    ensures
        forall|j: int| 24 < j < 28 ==> #[trigger] pares(UI_EN@)[j].0 != pares(UI_EN@)[24].0,
        forall|j: int| 24 < j < 28 ==> #[trigger] pares(UI_PT@)[j].0 != pares(UI_EN@)[24].0,
        pares(UI_PT@)[24].0 == pares(UI_EN@)[24].0,
        pares(UI_EN@).len() == 28 && pares(UI_PT@).len() == 28,
{
    reveal_strlit("cli-idioma-sem-valor");
    reveal_strlit("cli-idioma-invalido");
    reveal_strlit("schema-ilegivel");
    reveal_strlit("schema-invalido");
    assert("cli-idioma-sem-valor"@.len() != "cli-idioma-invalido"@.len());
    assert("cli-idioma-sem-valor"@.len() != "schema-ilegivel"@.len());
    assert("cli-idioma-sem-valor"@.len() != "schema-invalido"@.len());
    assert forall|j: int| 24 < j < 28 implies #[trigger] pares(UI_EN@)[j].0 != pares(UI_EN@)[24].0 && pares(UI_PT@)[j].0 != pares(UI_EN@)[24].0 by {
        assert(j == 25 || j == 26 || j == 27);
    }
    assert forall|j: int| 24 < j < 28 implies #[trigger] pares(UI_PT@)[j].0 != pares(UI_EN@)[24].0 by {
        assert(j == 25 || j == 26 || j == 27);
    }
}

proof fn lema_chave_ui_ultima_25()
    ensures
        forall|j: int| 25 < j < 28 ==> #[trigger] pares(UI_EN@)[j].0 != pares(UI_EN@)[25].0,
        forall|j: int| 25 < j < 28 ==> #[trigger] pares(UI_PT@)[j].0 != pares(UI_EN@)[25].0,
        pares(UI_PT@)[25].0 == pares(UI_EN@)[25].0,
        pares(UI_EN@).len() == 28 && pares(UI_PT@).len() == 28,
{
    reveal_strlit("cli-idioma-invalido");
    reveal_strlit("schema-ilegivel");
    reveal_strlit("schema-invalido");
    assert("cli-idioma-invalido"@.len() != "schema-ilegivel"@.len());
    assert("cli-idioma-invalido"@.len() != "schema-invalido"@.len());
    assert forall|j: int| 25 < j < 28 implies #[trigger] pares(UI_EN@)[j].0 != pares(UI_EN@)[25].0 && pares(UI_PT@)[j].0 != pares(UI_EN@)[25].0 by {
        assert(j == 26 || j == 27);
    }
    assert forall|j: int| 25 < j < 28 implies #[trigger] pares(UI_PT@)[j].0 != pares(UI_EN@)[25].0 by {
        assert(j == 26 || j == 27);
    }
}

proof fn lema_chave_ui_ultima_26()
    ensures
        forall|j: int| 26 < j < 28 ==> #[trigger] pares(UI_EN@)[j].0 != pares(UI_EN@)[26].0,
        forall|j: int| 26 < j < 28 ==> #[trigger] pares(UI_PT@)[j].0 != pares(UI_EN@)[26].0,
        pares(UI_PT@)[26].0 == pares(UI_EN@)[26].0,
        pares(UI_EN@).len() == 28 && pares(UI_PT@).len() == 28,
{
    reveal_strlit("schema-ilegivel");
    reveal_strlit("schema-invalido");
    assert("schema-ilegivel"@[8] != "schema-invalido"@[8]);
    assert forall|j: int| 26 < j < 28 implies #[trigger] pares(UI_EN@)[j].0 != pares(UI_EN@)[26].0 && pares(UI_PT@)[j].0 != pares(UI_EN@)[26].0 by {
        assert(j == 27);
    }
    assert forall|j: int| 26 < j < 28 implies #[trigger] pares(UI_PT@)[j].0 != pares(UI_EN@)[26].0 by {
        assert(j == 27);
    }
}

proof fn lema_chave_ui_ultima_27()
    ensures
        forall|j: int| 27 < j < 28 ==> #[trigger] pares(UI_EN@)[j].0 != pares(UI_EN@)[27].0,
        forall|j: int| 27 < j < 28 ==> #[trigger] pares(UI_PT@)[j].0 != pares(UI_EN@)[27].0,
        pares(UI_PT@)[27].0 == pares(UI_EN@)[27].0,
        pares(UI_EN@).len() == 28 && pares(UI_PT@).len() == 28,
{
    reveal_strlit("schema-invalido");
    assert forall|j: int| 27 < j < 28 implies #[trigger] pares(UI_EN@)[j].0 != pares(UI_EN@)[27].0 && pares(UI_PT@)[j].0 != pares(UI_EN@)[27].0 by {
        assert(false);
    }
    assert forall|j: int| 27 < j < 28 implies #[trigger] pares(UI_PT@)[j].0 != pares(UI_EN@)[27].0 by {
        assert(false);
    }
}

proof fn lema_texto_ui(i: nat, c: Seq<char>)
    requires
        i == 19 || i == 22 || i == 23 || i == 24 || i == 25 || i == 26 || i == 27,
        c == "en"@ || c == "pt"@,
    ensures
        pecas_boas(pecas_ui(c == "en"@, i)),
        texto_v(embutidos(), c, Secao::Ui, pares(UI_EN@)[i as int].0) == juntar_pecas(pecas_ui(c == "en"@, i)),
{
    if i == 19 {
        lema_molde_ui_en_19();
        lema_molde_ui_pt_19();
        lema_chave_ui_ultima_19();
    } else if i == 22 {
        lema_molde_ui_en_22();
        lema_molde_ui_pt_22();
        lema_chave_ui_ultima_22();
    } else if i == 23 {
        lema_molde_ui_en_23();
        lema_molde_ui_pt_23();
        lema_chave_ui_ultima_23();
    } else if i == 24 {
        lema_molde_ui_en_24();
        lema_molde_ui_pt_24();
        lema_chave_ui_ultima_24();
    } else if i == 25 {
        lema_molde_ui_en_25();
        lema_molde_ui_pt_25();
        lema_chave_ui_ultima_25();
    } else if i == 26 {
        lema_molde_ui_en_26();
        lema_molde_ui_pt_26();
        lema_chave_ui_ultima_26();
    } else if i == 27 {
        lema_molde_ui_en_27();
        lema_molde_ui_pt_27();
        lema_chave_ui_ultima_27();
    }
    lema_catalogos_embutidos();
    reveal_strlit("en");
    reveal_strlit("pt");
    assert("en"@ != "pt"@) by {
        assert("en"@[0] != "pt"@[0]);
    }
    let k = pares(UI_EN@)[i as int].0;
    lei_inserir_todos_buscar(Seq::empty(), pares(UI_EN@), k);
    lei_inserir_todos_buscar(Seq::empty(), pares(UI_PT@), k);
    assert(pares(UI_EN@)[i as int].1 == UI_EN@[i as int].1@);
    assert(pares(UI_PT@)[i as int].1 == UI_PT@[i as int].1@);
    assert(buscar(inserir_todos(Seq::empty(), pares(UI_EN@)), k) == Some(UI_EN@[i as int].1@));
    assert(buscar(inserir_todos(Seq::empty(), pares(UI_PT@)), k) == Some(UI_PT@[i as int].1@));
}

/// Os textos que um erro de uso carrega, todos limpos.
pub open spec fn erro_cli_limpo(e: ErroCliV) -> bool {
    match e {
        ErroCliV::IdiomaInvalido { idioma, disponiveis } => limpo(idioma) && forall|k: int|
            0 <= k < disponiveis.len() ==> limpo(#[trigger] disponiveis[k]),
        _ => true,
    }
}

/// Os textos que um erro de schema carrega, todos limpos.
pub open spec fn erro_schema_limpo(e: ErroSchema) -> bool {
    match e {
        ErroSchema::Ilegivel { caminho, erro } => limpo(caminho@) && limpo(erro@),
        ErroSchema::Invalido { caminho, erro } => limpo(caminho@) && limpo(erro@),
    }
}

proof fn lema_gabarito_ui_limpo(i: nat, c: Seq<char>, args: Seq<(Seq<char>, Seq<char>)>)
    requires
        i == 19 || i == 22 || i == 23 || i == 24 || i == 25 || i == 26 || i == 27,
        c == "en"@ || c == "pt"@,
        marcas_cobertas(pecas_ui(c == "en"@, i), args),
        forall|j: int| 0 <= j < args.len() ==> bom_nome(#[trigger] args[j].0) && limpo(args[j].1),
    ensures
        limpo(interpolar(texto_v(embutidos(), c, Secao::Ui, pares(UI_EN@)[i as int].0), args)),
{
    lema_texto_ui(i, c);
    lema_interpolar_limpo(pecas_ui(c == "en"@, i), args);
}

/// Todo erro de uso e todo erro de schema, e o texto de uso, saem completos
/// em cada catálogo embutido: sem chave ausente (`⟨…⟩`) e sem marcador por
/// preencher (`{…}`), desde que os textos que o erro carrega não tragam
/// esses caracteres.
pub proof fn lei_todo_erro_renderiza_completo(e: ErroCliV, es: ErroSchema, c: Seq<char>)
    requires
        c == "en"@ || c == "pt"@,
        erro_cli_limpo(e),
        erro_schema_limpo(es),
    ensures
        limpo(render_erro_cli(embutidos(), c, e)),
        limpo(interpolar(texto_v(embutidos(), c, Secao::Ui, chave_erro_schema(es)), args_erro_schema(es))),
        limpo(texto_v(embutidos(), c, Secao::Ui, "uso"@)),
{
    let en = c == "en"@;
    lema_nomes_bons();
    reveal_strlit(", ");
    reveal_strlit("\n\n");
    assert(", "@ =~= seq![',', ' ']);
    assert("\n\n"@ =~= seq!['\n', '\n']);
    assert(limpo(", "@) && limpo("\n\n"@));
    // o texto de uso
    assert(pares(UI_EN@)[19].0 == "uso"@);
    lema_gabarito_ui_limpo(19, c, Seq::empty());
    assert(interpolar(texto_v(embutidos(), c, Secao::Ui, "uso"@), Seq::empty()) == texto_v(embutidos(), c, Secao::Ui, "uso"@));
    // o erro de uso
    let i: nat = match e {
        ErroCliV::FaltamArgs => 22,
        ErroCliV::LogSemCaminho => 23,
        ErroCliV::IdiomaSemValor => 24,
        ErroCliV::IdiomaInvalido { .. } => 25,
    };
    assert(pares(UI_EN@)[i as int].0 == chave_erro_cli(e));
    let a = args_erro_cli(e);
    if let ErroCliV::IdiomaInvalido { disponiveis, .. } = e {
        lema_unir_limpo(disponiveis, ", "@);
    }
    assert forall|j: int| 0 <= j < a.len() implies bom_nome(#[trigger] a[j].0) && limpo(a[j].1) by {}
    assert(marcas_cobertas(pecas_ui(en, i), a)) by {
        let ps = pecas_ui(en, i);
        assert forall|k: int| 0 <= k < ps.len() implies match #[trigger] ps[k] {
            Peca::Marca(n) => exists|j: int| 0 <= j < a.len() && #[trigger] a[j].0 == n,
            Peca::Texto(_) => true,
        } by {
            if let Peca::Marca(n) = ps[k] {
                if a.len() > 0 && a[0].0 == n {
                } else if a.len() > 1 && a[1].0 == n {
                } else {
                    assert(false);
                }
            }
        }
    }
    lema_gabarito_ui_limpo(i, c, a);
    let t = interpolar(texto_v(embutidos(), c, Secao::Ui, chave_erro_cli(e)), a);
    let uso = texto_v(embutidos(), c, Secao::Ui, "uso"@);
    lema_concat_limpo(t, "\n\n"@);
    lema_concat_limpo(t + "\n\n"@, uso);
    // o erro de schema
    let i2: nat = match es {
        ErroSchema::Ilegivel { .. } => 26,
        ErroSchema::Invalido { .. } => 27,
    };
    assert(pares(UI_EN@)[i2 as int].0 == chave_erro_schema(es));
    let a2 = args_erro_schema(es);
    assert forall|j: int| 0 <= j < a2.len() implies bom_nome(#[trigger] a2[j].0) && limpo(a2[j].1) by {}
    assert(marcas_cobertas(pecas_ui(en, i2), a2)) by {
        let ps = pecas_ui(en, i2);
        assert forall|k: int| 0 <= k < ps.len() implies match #[trigger] ps[k] {
            Peca::Marca(n) => exists|j: int| 0 <= j < a2.len() && #[trigger] a2[j].0 == n,
            Peca::Texto(_) => true,
        } by {
            if let Peca::Marca(n) = ps[k] {
                if a2[0].0 == n {
                } else if a2[1].0 == n {
                } else {
                    assert(false);
                }
            }
        }
    }
    lema_gabarito_ui_limpo(i2, c, a2);
}

} // verus!
