use reqmeshval::{
    executar_validacao, houve_erro, montar_log, montar_log_em, parse_cli, validar_conteudo,
    validar_documento, Acao, Config, DefCampo, DefValor, Idiomas, Local, Mapa, Nivel, Relatorio, Schema, Valor,
};

const CAMINHO_SCHEMA: &str = "fixtures/elemento-requisito-v1.toml";
const VERSAO: &str = "elemento-requisito-v1";

const EXEMPLO_PT: &str = r#"schema_id = "elemento-requisito-v1;pt_BR"
tipo = "caso_de_uso"
nome = "Registrar pedido"
descricao = "O cliente fecha o carrinho e o pedido é registrado."
prioridade = "alta"
etiquetas = ["vendas", "checkout"]
gatilho = "O cliente confirma o carrinho"
fluxo_principal = ["O sistema valida o carrinho", "O sistema registra o pedido"]

[[relacoes]]
alvo = "ator-cliente"
natureza = "inclui"
"#;

const EXEMPLO_EN: &str = r#"schema_id = "elemento-requisito-v1;en"
type = "use_case"
name = "Register order"
description = "The customer closes the cart and the order is registered."
priority = "high"
tags = ["sales", "checkout"]
trigger = "The customer confirms the cart"
main_flow = ["The system validates the cart", "The system registers the order"]

[[relations]]
target = "actor-customer"
kind = "includes"
"#;

const EXEMPLO_INVALIDO: &str = r#"schema_id = "elemento-requisito-v1;pt"
tipo = "caso_de_uso"
name = "Pedido"
prioridade = "high"
etiquetas = ["vendas", 7]
gatilho = 42
cor = "azul"

[[relacoes]]
natureza = "inclui"
peso = 3
"#;

fn mapa_texto(pares: &[(&str, &str)]) -> Mapa<String> {
    let mut m = Mapa::novo();
    for (k, v) in pares {
        m.inserir(k.to_string(), v.to_string());
    }
    m
}

fn campo(obrigatorio: bool, tipo_dado: &str, en: &str, pt: &str) -> DefCampo {
    DefCampo {
        obrigatorio,
        tipo_dado: tipo_dado.to_string(),
        alias: mapa_texto(&[("en", en), ("pt", pt)]),
        valores: Mapa::novo(),
        subcampos: Vec::new(),
    }
}

fn valores(v: &[(&str, &str, &str)]) -> Mapa<DefValor> {
    let mut m = Mapa::novo();
    for (canonico, en, pt) in v {
        m.inserir(canonico.to_string(), DefValor { alias: mapa_texto(&[("en", en), ("pt", pt)]) });
    }
    m
}

fn schema_de_teste() -> Schema {
    let mut campos = Mapa::novo();
    let mut tipo = campo(true, "enum", "type", "tipo");
    tipo.valores = valores(&[("ator", "actor", "ator"), ("caso_de_uso", "use_case", "caso_de_uso")]);
    campos.inserir("tipo".to_string(), tipo);
    campos.inserir("nome".to_string(), campo(true, "string", "name", "nome"));
    campos.inserir("descricao".to_string(), campo(false, "string_markdown", "description", "descricao"));
    let mut prioridade = campo(false, "enum", "priority", "prioridade");
    prioridade.valores = valores(&[("alta", "high", "alta"), ("baixa", "low", "baixa"), ("media", "medium", "media")]);
    campos.inserir("prioridade".to_string(), prioridade);
    campos.inserir("etiquetas".to_string(), campo(false, "array<string>", "tags", "etiquetas"));
    let mut relacoes = campo(false, "array<tabela>", "relations", "relacoes");
    relacoes.subcampos = vec![
        ("alvo".to_string(), campo(true, "string", "target", "alvo")),
        ("natureza".to_string(), campo(false, "string", "kind", "natureza")),
    ];
    campos.inserir("relacoes".to_string(), relacoes);

    let mut caso = Mapa::novo();
    caso.inserir("gatilho".to_string(), campo(true, "string", "trigger", "gatilho"));
    caso.inserir("fluxo_principal".to_string(), campo(true, "array<string>", "main_flow", "fluxo_principal"));

    let mut ator = Mapa::novo();
    ator.inserir("objetivo".to_string(), campo(false, "string", "goal", "objetivo"));

    Schema { campos, campos_caso_de_uso: caso, campos_ator: ator }
}

fn validar(texto: &str) -> Relatorio {
    validar_conteudo(&schema_de_teste(), VERSAO, Ok(texto.to_string()))
}

fn leituras(nomes: &[(&str, &str)]) -> Vec<(String, Result<String, String>)> {
    nomes.iter().map(|(caminho, texto)| (caminho.to_string(), Ok(texto.to_string()))).collect()
}

fn args(v: &[&str]) -> Vec<String> {
    v.iter().map(|s| s.to_string()).collect()
}

fn idiomas() -> Idiomas {
    Idiomas::carregar(Vec::new())
}

fn config(arquivos: &[&str], auto: bool, l_geral: &str) -> Config {
    Config {
        caminho_schema: CAMINHO_SCHEMA.to_string(),
        arquivos: arquivos.iter().map(|s| s.to_string()).collect(),
        caminho_log: None,
        auto,
        l_geral: l_geral.to_string(),
        padrao: l_geral.to_string(),
    }
}

fn conteudo_de(caminho: &str) -> Result<String, String> {
    match caminho {
        "fixtures/exemplo-pt.toml" => Ok(EXEMPLO_PT.to_string()),
        "fixtures/exemplo-en.toml" => Ok(EXEMPLO_EN.to_string()),
        "fixtures/exemplo-invalido.toml" => Ok(EXEMPLO_INVALIDO.to_string()),
        _ => Err("No such file or directory (os error 2)".to_string()),
    }
}

/// O que o programa faz com a linha de comando, sem o processo: a
/// configuração, os relatórios e o log.
fn rodar(argumentos: &[&str]) -> (Config, Vec<(String, Relatorio)>, String) {
    let idiomas = idiomas();
    let cfg = match parse_cli(&args(argumentos), &idiomas, "en").expect("linha de comando válida") {
        Acao::Validar(cfg) => cfg,
        outro => panic!("esperava Validar, obtive {outro:?}"),
    };
    let entradas: Vec<(String, Result<String, String>)> =
        cfg.arquivos.iter().map(|a| (a.clone(), conteudo_de(a))).collect();
    let resultados = executar_validacao(&schema_de_teste(), VERSAO, &entradas);
    let log = montar_log(&cfg, &resultados, &idiomas);
    (cfg, resultados, log)
}

// --- validação -----------------------------------------------------------

#[test]
fn exemplos_validos_passam() {
    for (nome, texto) in [("exemplo-pt.toml", EXEMPLO_PT), ("exemplo-en.toml", EXEMPLO_EN)] {
        let rel = validar(texto);
        assert!(rel.valido(), "{nome} deveria passar; erros: {:?}", rel.chaves());
        assert_eq!(rel.avisos(), 0, "{nome}: {:?}", rel.chaves());
    }
}

#[test]
fn exemplos_pt_e_en_normalizam_para_o_mesmo_tipo() {
    let pt = validar(EXEMPLO_PT);
    let en = validar(EXEMPLO_EN);
    assert_eq!(pt.tipo, Some("caso_de_uso".to_string()));
    assert_eq!(pt.tipo, en.tipo);
    assert_eq!(pt.campos_reconhecidos, en.campos_reconhecidos);
    assert_eq!(pt.campos_reconhecidos, 8);
    assert_eq!(pt.idioma, Some("pt".to_string()));
    assert_eq!(en.idioma, Some("en".to_string()));
}

#[test]
fn fixture_invalida_reporta_cada_defeito_embutido() {
    let rel = validar(EXEMPLO_INVALIDO);
    assert!(!rel.valido());
    let chaves = rel.chaves();
    for esperada in [
        "alias-de-outro-idioma",
        "enum-invalido-outro-idioma",
        "obrigatorio-ausente",
        "esperado-texto",
        "campo-desconhecido",
        "subcampo-obrigatorio-ausente",
    ] {
        assert!(chaves.contains(&esperada), "esperava '{esperada}' entre os diagnósticos; obtive {chaves:?}");
    }
}

#[test]
fn diagnostico_de_subcampo_leva_o_prefixo_do_item() {
    let rel = validar(EXEMPLO_INVALIDO);
    let locais: Vec<String> = rel
        .diagnosticos
        .iter()
        .filter_map(|d| match &d.local {
            Local::Campo(c) => Some(c.clone()),
            _ => None,
        })
        .collect();
    assert!(
        locais.iter().any(|c| c == "relacoes[0].alvo"),
        "esperava 'relacoes[0].alvo' entre os locais; obtive {locais:?}"
    );
    assert!(locais.iter().any(|c| c == "relacoes[0].peso"), "{locais:?}");
    assert!(locais.iter().any(|c| c == "etiquetas[1]"), "{locais:?}");
}

#[test]
fn campo_desconhecido_muda_de_familia_conforme_o_nivel() {
    let chaves = validar(EXEMPLO_INVALIDO).chaves();
    assert!(chaves.contains(&"campo-desconhecido"));
    assert!(chaves.contains(&"subcampo-desconhecido"));
}

#[test]
fn fixture_invalida_da_a_lista_exata_de_diagnosticos() {
    // Chaves do arquivo em ordem alfabética, depois os obrigatórios.
    let rel = validar(EXEMPLO_INVALIDO);
    assert_eq!(
        rel.chaves(),
        vec![
            "campo-desconhecido",           // cor
            "esperado-texto",               // etiquetas[1]
            "esperado-texto",               // gatilho = 42
            "alias-de-outro-idioma",        // name
            "enum-invalido-outro-idioma",   // prioridade = "high"
            "subcampo-desconhecido",        // relacoes[0].peso
            "subcampo-obrigatorio-ausente", // relacoes[0].alvo
            "obrigatorio-ausente",          // fluxo_principal
            "obrigatorio-ausente",          // nome
        ]
    );
    assert_eq!(rel.erros(), 9);
    assert_eq!(rel.avisos(), 0);
    assert_eq!(rel.campos_reconhecidos, 5);
}

#[test]
fn arquivo_inexistente_nao_entra_em_panico() {
    let rel = validar_conteudo(&schema_de_teste(), VERSAO, Err("No such file or directory".to_string()));
    assert!(!rel.valido());
    assert_eq!(rel.chaves()[0], "arquivo-ilegivel");
}

#[test]
fn toml_quebrado_e_raiz_que_nao_e_tabela() {
    let rel = validar("schema_id = ");
    assert_eq!(rel.chaves(), vec!["toml-invalido"]);
    assert_eq!(rel.schema_id, None);
    let rel = validar_documento(&schema_de_teste(), VERSAO, Ok(Valor::Texto("x".to_string())));
    assert_eq!(rel.chaves(), vec!["nao-eh-tabela-raiz"]);
}

#[test]
fn versao_divergente_e_aviso() {
    let texto = EXEMPLO_PT.replace("elemento-requisito-v1;pt_BR", "elemento-requisito-v2;pt");
    let rel = validar(&texto);
    assert!(rel.valido());
    assert_eq!(rel.chaves(), vec!["versao-divergente"]);
    assert_eq!(rel.diagnosticos[0].nivel, Nivel::Aviso);
}

#[test]
fn schema_id_e_tipo_ausentes() {
    let rel = validar("nome = \"x\"\n");
    assert_eq!(rel.chaves(), vec!["schema-id-ausente"]);
    let rel = validar("schema_id = \"elemento-requisito-v1;pt\"\nnome = \"x\"\n");
    assert_eq!(rel.chaves(), vec!["tipo-ausente"]);
    assert_eq!(rel.idioma, Some("pt".to_string()));
    assert_eq!(rel.tipo, None);
    let rel = validar("schema_id = \"elemento-requisito-v1;pt\"\ntipo = \"algo\"\n");
    assert_eq!(rel.chaves(), vec!["enum-invalido"]);
}

#[test]
fn idioma_sem_nomes_no_schema() {
    let rel = validar("schema_id = \"elemento-requisito-v1;de\"\ntyp = \"x\"\n");
    assert_eq!(rel.chaves(), vec!["schema-sem-alias-do-campo"]);
}

#[test]
fn ator_nao_cobra_campos_de_caso_de_uso() {
    let rel = validar("schema_id = \"elemento-requisito-v1;pt\"\ntipo = \"ator\"\nnome = \"Cliente\"\nobjetivo = \"comprar\"\n");
    assert!(rel.valido(), "{:?}", rel.chaves());
    assert_eq!(rel.tipo, Some("ator".to_string()));
    assert_eq!(rel.campos_reconhecidos, 3);
}

// --- execução e log --------------------------------------------------------

#[test]
fn log_traz_cabecalho_blocos_e_resumo() {
    let idiomas = idiomas();
    let arquivos = ["fixtures/exemplo-pt.toml", "fixtures/exemplo-invalido.toml"];
    let cfg = config(&arquivos, false, "pt");
    let entradas = leituras(&[(arquivos[0], EXEMPLO_PT), (arquivos[1], EXEMPLO_INVALIDO)]);
    let resultados = executar_validacao(&schema_de_teste(), VERSAO, &entradas);
    let log = montar_log(&cfg, &resultados, &idiomas);

    assert!(log.contains(&idiomas.rot("pt", "titulo")));
    assert!(log.contains(&idiomas.rot("pt", "resumo")));
    assert!(log.contains("[1/2]"));
    assert!(log.contains("[2/2]"));
    assert!(log.contains(&idiomas.rot("pt", "ok")));
    assert!(log.contains(&idiomas.rot("pt", "falha")));
    assert!(!log.contains('⟨'), "chave ausente no log:\n{log}");
}

#[test]
fn log_em_auto_usa_o_idioma_declarado_por_arquivo() {
    let idiomas = idiomas();
    let arquivos = ["fixtures/exemplo-pt.toml", "fixtures/exemplo-en.toml"];
    let cfg = config(&arquivos, true, "en");
    let entradas = leituras(&[(arquivos[0], EXEMPLO_PT), (arquivos[1], EXEMPLO_EN)]);
    let resultados = executar_validacao(&schema_de_teste(), VERSAO, &entradas);
    let log = montar_log(&cfg, &resultados, &idiomas);

    assert!(log.contains("auto"));
    assert!(log.contains(&idiomas.rot("pt", "ok")));
    assert!(log.contains(&idiomas.rot("en", "ok")));
}

#[test]
fn log_com_data_dada_e_exato() {
    let idiomas = idiomas();
    let cfg = config(&["fixtures/exemplo-pt.toml"], false, "pt");
    let entradas = leituras(&[("fixtures/exemplo-pt.toml", EXEMPLO_PT)]);
    let resultados = executar_validacao(&schema_de_teste(), VERSAO, &entradas);
    let log = montar_log_em(&cfg, &resultados, &idiomas, "2024-05-01T10:00:00+00:00");
    let esperado = [
        "=== reqMeshVal — relatório de validação ===\n",
        "data     : 2024-05-01T10:00:00+00:00\n",
        "schema   : fixtures/elemento-requisito-v1.toml\n",
        "versão   : elemento-requisito-v1\n",
        "arquivos : 1\n",
        "idioma   : pt\n",
        "\n",
        "[1/1] fixtures/exemplo-pt.toml\n",
        "         schema_id : elemento-requisito-v1;pt_BR  (idioma: pt)\n",
        "         tipo      : caso_de_uso\n",
        "         OK — 8 campos reconhecidos, 0 avisos\n",
        "\n",
        "--- resumo ---\n",
        "arquivos : 1\n",
        "válidos  : 1\n",
        "falhas   : 0\n",
        "erros    : 0\n",
        "avisos   : 0\n",
    ]
    .concat();
    assert_eq!(log, esperado);
}

#[test]
fn log_so_muda_na_data() {
    let idiomas = idiomas();
    let cfg = config(&["fixtures/exemplo-invalido.toml"], false, "en");
    let entradas = leituras(&[("fixtures/exemplo-invalido.toml", EXEMPLO_INVALIDO)]);
    let resultados = executar_validacao(&schema_de_teste(), VERSAO, &entradas);
    let a = montar_log_em(&cfg, &resultados, &idiomas, "D1");
    let b = montar_log_em(&cfg, &resultados, &idiomas, "D2");
    assert_ne!(a, b);
    assert_eq!(a.replacen("D1", "D2", 1), b);
    assert!(a.contains("           ERROR relacoes[0].alvo"));
}

#[test]
fn log_de_arquivo_ilegivel_mostra_o_local_traduzido() {
    let idiomas = idiomas();
    let cfg = config(&["fixtures/nao-existe.toml"], false, "pt");
    let entradas = vec![("fixtures/nao-existe.toml".to_string(), Err("sem acesso".to_string()))];
    let resultados = executar_validacao(&schema_de_teste(), VERSAO, &entradas);
    let log = montar_log_em(&cfg, &resultados, &idiomas, "hoje");
    assert!(log.contains("FALHA — 1 erro, 0 avisos"), "{log}");
    assert!(!log.contains("schema_id :"));
    assert!(houve_erro(&resultados));
}

#[test]
fn resumo_soma_erros_e_avisos_de_todos() {
    let idiomas = idiomas();
    let texto = EXEMPLO_PT.replace("elemento-requisito-v1;pt_BR", "elemento-requisito-v2;pt");
    let entradas = leituras(&[("a", EXEMPLO_INVALIDO), ("b", &texto), ("c", EXEMPLO_INVALIDO)]);
    let resultados = executar_validacao(&schema_de_teste(), VERSAO, &entradas);
    let cfg = config(&["a", "b", "c"], false, "en");
    let log = montar_log_em(&cfg, &resultados, &idiomas, "d");
    assert!(log.ends_with("files    : 3\nvalid    : 1\nfailed   : 2\nerrors   : 18\nwarnings : 1\n"), "{log}");
}

#[test]
fn pipeline_completo_em_pt() {
    let idiomas = idiomas();
    let (_, resultados, log) = rodar(&["-i", "pt", CAMINHO_SCHEMA, "fixtures/exemplo-pt.toml"]);
    assert_eq!(resultados.len(), 1);
    let (_, rel) = &resultados[0];
    assert!(rel.valido(), "diagnósticos: {:?}", rel.chaves());
    assert_eq!(rel.tipo.as_deref(), Some("caso_de_uso"));
    assert!(log.contains(&idiomas.rot("pt", "ok")));
    assert!(!log.contains('⟨'));
}

#[test]
fn arquivo_invalido_vira_falha_em_qualquer_idioma() {
    let idiomas = idiomas();
    for codigo in idiomas.disponiveis() {
        let (_, resultados, log) = rodar(&["-i", &codigo, CAMINHO_SCHEMA, "fixtures/exemplo-invalido.toml"]);
        assert!(!resultados[0].1.valido());
        assert!(log.contains(&idiomas.rot(&codigo, "falha")), "idioma {codigo}");
        assert!(!log.contains('⟨'), "chave ausente em '{codigo}':\n{log}");
    }
}

#[test]
fn arquivos_validos_saem_com_codigo_zero() {
    let (_, resultados, texto) = rodar(&[
        CAMINHO_SCHEMA,
        "fixtures/exemplo-pt.toml",
        "fixtures/exemplo-en.toml",
        "--idioma",
        "pt",
    ]);
    assert!(!houve_erro(&resultados));
    assert!(texto.contains("relatório de validação"));
    assert!(texto.contains("--- resumo ---"));
    assert!(texto.contains("[1/2]"));
    assert!(texto.contains("[2/2]"));
}

#[test]
fn arquivo_com_erro_sai_com_codigo_um() {
    let (_, resultados, texto) = rodar(&[CAMINHO_SCHEMA, "fixtures/exemplo-invalido.toml", "--idioma", "pt"]);
    assert!(houve_erro(&resultados));
    assert!(texto.contains("FALHA"));
}

#[test]
fn idioma_altera_a_saida() {
    let (_, rpt, pt) = rodar(&[CAMINHO_SCHEMA, "fixtures/exemplo-pt.toml", "--idioma", "pt"]);
    let (_, ren, en) = rodar(&[CAMINHO_SCHEMA, "fixtures/exemplo-pt.toml", "--idioma", "en"]);
    assert!(pt.contains("relatório de validação"));
    assert!(en.contains("validation report"));
    assert_eq!(houve_erro(&rpt), houve_erro(&ren));
}

#[test]
fn modo_auto_reporta_cada_arquivo_no_idioma_declarado() {
    let (_, _, texto) = rodar(&[
        CAMINHO_SCHEMA,
        "fixtures/exemplo-pt.toml",
        "fixtures/exemplo-en.toml",
        "--idioma",
        "auto",
    ]);
    assert!(texto.contains("campos reconhecidos"), "esperava o bloco em português");
    assert!(texto.contains("fields recognized"), "esperava o bloco em inglês");
}

#[test]
fn listar_idiomas_mostra_os_embutidos() {
    match parse_cli(&args(&["--idiomas"]), &idiomas(), "en") {
        Ok(Acao::Imprimir(texto)) => {
            assert!(texto.contains("en"));
            assert!(texto.contains("pt"));
        }
        outro => panic!("esperava a lista, obtive {outro:?}"),
    }
}

#[test]
fn ajuda_sai_com_sucesso() {
    for flag in ["-h", "--help"] {
        match parse_cli(&args(&[flag]), &idiomas(), "en") {
            Ok(Acao::Imprimir(texto)) => assert!(texto.contains("reqMeshVal")),
            outro => panic!("esperava a ajuda, obtive {outro:?}"),
        }
    }
}
