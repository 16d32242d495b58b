use reqmeshval::cli::ErroSchema;
use reqmeshval::{
    codigo_de_catalogo, concluir_carga_schema, dir_catalogos, idioma_de_valores, interpretar_schema_id, ler_campo_texto,
    parse_cli, versao_do_caminho, Acao, Catalogo, Config, ErroCli, FormasPlural, Idiomas, Local, Mapa, Msg, Schema,
    Valor, FALLBACK,
};

fn args(v: &[&str]) -> Vec<String> {
    v.iter().map(|s| s.to_string()).collect()
}

fn idiomas() -> Idiomas {
    Idiomas::carregar(Vec::new())
}

fn uma_de_cada_mensagem() -> Vec<Msg> {
    let s = || "x".to_string();
    vec![
        Msg::ArquivoIlegivel(s()),
        Msg::TomlInvalido(s()),
        Msg::NaoEhTabelaRaiz,
        Msg::SchemaIdAusente,
        Msg::VersaoDivergente { no_arquivo: s(), carregado: s() },
        Msg::SchemaSemCampoCanonico(s()),
        Msg::SchemaSemAliasDoCampo { campo: s(), idioma: s() },
        Msg::TipoAusente,
        Msg::TipoSemCamposEspecificos(s()),
        Msg::EsperadoTexto(s()),
        Msg::EsperadoListaTextos(s()),
        Msg::EsperadoListaTabelas(s()),
        Msg::EsperadoTabela(s()),
        Msg::ListaVaziaObrigatoria,
        Msg::EnumInvalido { valor: s(), idioma: s(), permitidos: vec![s()], em_outro_idioma: None },
        Msg::EnumInvalido { valor: s(), idioma: s(), permitidos: vec![s()], em_outro_idioma: Some((s(), s())) },
        Msg::AliasDeOutroIdioma { canonico: s(), idioma_do_alias: s(), idioma_declarado: s(), subcampo: false },
        Msg::AliasDeOutroIdioma { canonico: s(), idioma_do_alias: s(), idioma_declarado: s(), subcampo: true },
        Msg::CampoDesconhecido { idioma: s(), subcampo: false },
        Msg::CampoDesconhecido { idioma: s(), subcampo: true },
        Msg::ObrigatorioAusente { canonico: s(), subcampo: false },
        Msg::ObrigatorioAusente { canonico: s(), subcampo: true },
        Msg::TipoDadoDesconhecido(s()),
        Msg::SemSubcampos,
        Msg::AliasAmbiguo { alias: s(), idioma: s(), anterior: s(), atual: s() },
        Msg::SemAliasNoIdioma { canonico: s(), idioma: s() },
    ]
}

fn um_de_cada_erro_cli() -> Vec<ErroCli> {
    vec![
        ErroCli::FaltamArgs,
        ErroCli::LogSemCaminho,
        ErroCli::IdiomaSemValor,
        ErroCli::IdiomaInvalido { idioma: "x".to_string(), disponiveis: vec!["en".to_string()] },
    ]
}

fn um_de_cada_erro_schema() -> Vec<ErroSchema> {
    vec![
        ErroSchema::Ilegivel { caminho: "x".to_string(), erro: "x".to_string() },
        ErroSchema::Invalido { caminho: "x".to_string(), erro: "x".to_string() },
    ]
}

fn schema_vazio() -> Schema {
    Schema { campos: Mapa::novo(), campos_caso_de_uso: Mapa::novo(), campos_ator: Mapa::novo() }
}

// --- catálogos ---------------------------------------------------------

#[test]
fn catalogos_embutidos_parseiam() {
    let idiomas = idiomas();
    for codigo in ["en", "pt"] {
        assert!(idiomas.tem(codigo), "catálogo embutido '{codigo}' não carregou");
    }
}

#[test]
fn todos_os_catalogos_tem_as_mesmas_chaves() {
    let idiomas = idiomas();
    let base = idiomas.catalogo(FALLBACK).expect("catálogo de fallback ausente");
    for codigo in idiomas.disponiveis() {
        let cat = idiomas.catalogo(&codigo).unwrap();
        assert_eq!(base.ui.chaves_lista(), cat.ui.chaves_lista(), "seção [ui] diverge em '{codigo}'");
        assert_eq!(base.msg.chaves_lista(), cat.msg.chaves_lista(), "seção [msg] diverge em '{codigo}'");
        assert_eq!(base.plural.chaves_lista(), cat.plural.chaves_lista(), "seção [plural] diverge em '{codigo}'");
    }
}

#[test]
fn toda_mensagem_renderiza_completa_em_todo_idioma() {
    let idiomas = idiomas();
    for codigo in idiomas.disponiveis() {
        for m in uma_de_cada_mensagem() {
            let texto = m.render(&idiomas, &codigo);
            assert!(!texto.contains('⟨'), "chave ausente em '{codigo}': {texto}");
            assert!(!texto.contains('{'), "placeholder não substituído em '{codigo}': {texto}");
        }
    }
}

#[test]
fn todo_erro_de_cli_e_de_schema_renderiza_completo() {
    let idiomas = idiomas();
    for codigo in idiomas.disponiveis() {
        let mut textos: Vec<String> = um_de_cada_erro_cli().iter().map(|e| e.render(&idiomas, &codigo)).collect();
        textos.extend(um_de_cada_erro_schema().iter().map(|e| e.render(&idiomas, &codigo)));
        for texto in textos {
            assert!(!texto.contains('⟨'), "chave ausente em '{codigo}': {texto}");
            assert!(!texto.contains('{'), "placeholder não substituído em '{codigo}': {texto}");
        }
    }
}

#[test]
fn plurais_selecionam_a_forma_certa() {
    let idiomas = idiomas();
    assert_eq!(idiomas.plural("pt", "erros", 1), "1 erro");
    assert_eq!(idiomas.plural("pt", "erros", 0), "0 erros");
    assert_eq!(idiomas.plural("pt", "erros", 3), "3 erros");
    assert_eq!(idiomas.plural("en", "erros", 1), "1 error");
    assert_eq!(idiomas.plural("en", "erros", 2), "2 errors");
}

#[test]
fn idioma_sem_catalogo_cai_no_fallback() {
    let idiomas = idiomas();
    assert_eq!(idiomas.efetivo("pt"), "pt");
    assert_eq!(idiomas.efetivo("tlh"), FALLBACK);
}

#[test]
fn texto_de_idioma_sem_catalogo_e_o_da_reserva() {
    let idiomas = idiomas();
    assert_eq!(idiomas.rot("tlh", "titulo"), idiomas.rot("en", "titulo"));
    assert_eq!(idiomas.plural("tlh", "erros", 2), idiomas.plural("en", "erros", 2));
    assert_ne!(idiomas.rot("pt", "titulo"), idiomas.rot("en", "titulo"));
}

#[test]
fn chave_inexistente_aparece_marcada() {
    let idiomas = idiomas();
    assert_eq!(idiomas.rot("pt", "nao-existe"), "⟨nao-existe⟩");
    assert_eq!(idiomas.plural("pt", "nao-existe", 3), "⟨nao-existe:3⟩");
}

#[test]
fn placeholder_sem_argumento_fica_literal() {
    let idiomas = idiomas();
    let sem = idiomas.ui("en", "catalogo-invalido", &Vec::new());
    assert!(sem.contains("{caminho}") && sem.contains("{erro}"));
    let com = idiomas.ui("en", "catalogo-invalido", &vec![("caminho", "a/b.toml".to_string())]);
    assert!(com.contains("a/b.toml") && com.contains("{erro}"));
}

#[test]
fn aviso_de_catalogo_sai_no_idioma_de_reserva() {
    let idiomas = idiomas();
    let aviso = idiomas.aviso_de_catalogo("dir/xx.toml", "linha 3");
    assert_eq!(aviso, "reqMeshVal: catalog 'dir/xx.toml' ignored: linha 3");
}

fn catalogo_minimo(titulo: &str) -> Catalogo {
    let mut ui = Mapa::novo();
    ui.inserir("titulo".to_string(), titulo.to_string());
    let mut plural = Mapa::novo();
    plural.inserir("erros".to_string(), FormasPlural { one: "{n} hiba".to_string(), other: "{n} hibak".to_string() });
    Catalogo { ui, msg: Mapa::novo(), plural }
}

#[test]
fn catalogo_do_diretorio_acrescenta_e_sobrepoe() {
    let idiomas = Idiomas::carregar(vec![
        ("hu".to_string(), catalogo_minimo("jelentés")),
        ("pt".to_string(), catalogo_minimo("primeiro")),
        ("pt".to_string(), catalogo_minimo("segundo")),
    ]);
    assert_eq!(idiomas.disponiveis(), vec!["en".to_string(), "hu".to_string(), "pt".to_string()]);
    assert_eq!(idiomas.rot("hu", "titulo"), "jelentés");
    assert_eq!(idiomas.plural("hu", "erros", 1), "1 hiba");
    assert_eq!(idiomas.plural("hu", "erros", 4), "4 hibak");
    // O último de mesmo código vale; o que ele não tem cai na reserva.
    assert_eq!(idiomas.rot("pt", "titulo"), "segundo");
    assert_eq!(idiomas.rot("pt", "resumo"), idiomas.rot("en", "resumo"));
    assert!(idiomas.tem("en"));
}

#[test]
fn codigo_de_catalogo_vem_do_nome_do_arquivo() {
    assert_eq!(codigo_de_catalogo("i18n/PT.toml"), Some("pt".to_string()));
    assert_eq!(codigo_de_catalogo("./de.toml"), Some("de".to_string()));
    assert_eq!(codigo_de_catalogo("i18n/leia-me.md"), None);
    assert_eq!(codigo_de_catalogo("i18n/.toml"), None);
    assert_eq!(codigo_de_catalogo("i18n/toml"), None);
    assert_eq!(codigo_de_catalogo("i18n/.."), None);
}

#[test]
fn idioma_do_ambiente_segue_a_precedencia() {
    let v = |x: &[Option<&str>]| x.iter().map(|o| o.map(|s| s.to_string())).collect::<Vec<_>>();
    assert_eq!(idioma_de_valores(&v(&[None, None, Some("pt_BR.UTF-8")])), Some("pt".to_string()));
    assert_eq!(idioma_de_valores(&v(&[Some("C"), Some("de-AT"), Some("pt_BR")])), Some("de".to_string()));
    assert_eq!(idioma_de_valores(&v(&[Some("POSIX"), Some(""), Some(".UTF-8")])), None);
    assert_eq!(idioma_de_valores(&v(&[Some("EN_us"), None, None])), Some("en".to_string()));
    assert_eq!(idioma_de_valores(&v(&[])), None);
}

// --- CLI ---------------------------------------------------------------

fn cfg_de(argumentos: &[&str]) -> Config {
    match parse_cli(&args(argumentos), &idiomas(), "en") {
        Ok(Acao::Validar(cfg)) => cfg,
        outro => panic!("esperava Validar, obtive {outro:?}"),
    }
}

fn erro_de(argumentos: &[&str]) -> ErroCli {
    match parse_cli(&args(argumentos), &idiomas(), "en") {
        Err(e) => e,
        outro => panic!("esperava erro, obtive {outro:?}"),
    }
}

#[test]
fn cli_separa_schema_dos_arquivos() {
    let cfg = cfg_de(&["s.toml", "a.toml", "b.toml"]);
    assert_eq!(cfg.caminho_schema, "s.toml");
    assert_eq!(cfg.arquivos, vec!["a.toml".to_string(), "b.toml".to_string()]);
    assert_eq!(cfg.caminho_log, None);
}

#[test]
fn cli_sem_idioma_usa_o_padrao() {
    let cfg = cfg_de(&["s.toml", "a.toml"]);
    assert!(!cfg.auto);
    assert_eq!(cfg.l_geral, "en");
}

#[test]
fn cli_idioma_fixo_normaliza_para_minusculas() {
    for forma in [
        vec!["-i", "PT", "s.toml", "a.toml"],
        vec!["--idioma", "pt", "s.toml", "a.toml"],
        vec!["--lang", "pt", "s.toml", "a.toml"],
    ] {
        let cfg = cfg_de(&forma);
        assert!(!cfg.auto, "{forma:?}");
        assert_eq!(cfg.l_geral, "pt", "{forma:?}");
    }
}

#[test]
fn cli_idioma_auto_nao_fixa_l_geral() {
    let cfg = cfg_de(&["-i", "AUTO", "s.toml", "a.toml"]);
    assert!(cfg.auto);
    assert_eq!(cfg.l_geral, "en");
}

#[test]
fn cli_ultima_ocorrencia_de_idioma_vence() {
    let cfg = cfg_de(&["-i", "pt", "-i", "auto", "s.toml", "a.toml"]);
    assert!(cfg.auto);
}

#[test]
fn cli_log_guarda_o_caminho() {
    let cfg = cfg_de(&["-l", "saida.log", "s.toml", "a.toml"]);
    assert_eq!(cfg.caminho_log, Some("saida.log".to_string()));
}

#[test]
fn cli_valor_de_catalogos_nao_vira_posicional() {
    let cfg = cfg_de(&["-c", "i18n", "s.toml", "a.toml"]);
    assert_eq!(cfg.arquivos, vec!["a.toml".to_string()]);
}

#[test]
fn cli_erros_de_uso() {
    assert_eq!(erro_de(&[]), ErroCli::FaltamArgs);
    assert_eq!(erro_de(&["s.toml"]), ErroCli::FaltamArgs);
    assert_eq!(erro_de(&["s.toml", "a.toml", "-l"]), ErroCli::LogSemCaminho);
    assert_eq!(erro_de(&["s.toml", "a.toml", "-i"]), ErroCli::IdiomaSemValor);
    assert_eq!(
        erro_de(&["-i", "tlh", "s.toml", "a.toml"]),
        ErroCli::IdiomaInvalido { idioma: "tlh".to_string(), disponiveis: vec!["en".to_string(), "pt".to_string()] }
    );
}

#[test]
fn cli_idioma_invalido_tem_prioridade_sobre_faltam_args() {
    assert!(matches!(erro_de(&["-i", "tlh"]), ErroCli::IdiomaInvalido { .. }));
}

#[test]
fn cli_help_e_idiomas_saem_sem_validar() {
    let idiomas = idiomas();
    for forma in [vec!["-h"], vec!["--help"], vec!["s.toml", "a.toml", "-h"]] {
        let acao = parse_cli(&args(&forma), &idiomas, "en").expect("não deveria falhar");
        assert!(matches!(acao, Acao::Imprimir(_)), "{forma:?}");
    }
    match parse_cli(&args(&["--idiomas"]), &idiomas, "en") {
        Ok(Acao::Imprimir(t)) => assert_eq!(t, "en\npt"),
        outro => panic!("esperava a lista de idiomas, obtive {outro:?}"),
    }
}

#[test]
fn cli_ajuda_sai_no_idioma_do_ambiente() {
    let idiomas = idiomas();
    match parse_cli(&args(&["--help"]), &idiomas, "pt") {
        Ok(Acao::Imprimir(t)) => assert_eq!(t, idiomas.rot("pt", "uso")),
        outro => panic!("esperava a ajuda, obtive {outro:?}"),
    }
}

#[test]
fn erro_de_uso_vem_com_o_texto_de_uso() {
    let idiomas = idiomas();
    let uso = idiomas.rot("pt", "uso");
    assert!(ErroCli::FaltamArgs.render(&idiomas, "pt").ends_with(&uso));
    assert!(ErroCli::LogSemCaminho.render(&idiomas, "pt").ends_with(&uso));
    assert!(!ErroCli::IdiomaSemValor.render(&idiomas, "pt").contains(&uso));
    let invalido = ErroCli::IdiomaInvalido { idioma: "tlh".to_string(), disponiveis: vec!["en".to_string(), "pt".to_string()] };
    let texto = invalido.render(&idiomas, "en");
    assert!(texto.contains("tlh") && texto.contains("en, pt"));
}

#[test]
fn dir_catalogos_pega_a_ultima_ocorrencia() {
    assert_eq!(dir_catalogos(&args(&["s.toml"])), None);
    assert_eq!(dir_catalogos(&args(&["-c", "a", "--catalogos", "b", "s.toml"])), Some("b".to_string()));
    assert_eq!(dir_catalogos(&args(&["s.toml", "-c"])), None);
}

// --- schema ------------------------------------------------------------

#[test]
fn carregar_schema_devolve_a_versao_do_nome_do_arquivo() {
    let (_, versao) = concluir_carga_schema("fixtures/elemento-requisito-v1.toml", Ok(Ok(schema_vazio()))).unwrap();
    assert_eq!(versao, "elemento-requisito-v1");
}

#[test]
fn carregar_schema_distingue_ilegivel_de_invalido() {
    assert!(matches!(
        concluir_carga_schema("fixtures/nao-existe.toml", Err("No such file or directory".to_string())),
        Err(ErroSchema::Ilegivel { .. })
    ));
    assert!(matches!(
        concluir_carga_schema("fixtures/schema-quebrado.toml", Ok(Err("missing field `tipo_dado`".to_string()))),
        Err(ErroSchema::Invalido { .. })
    ));
}

#[test]
fn erro_de_schema_guarda_caminho_e_erro() {
    match concluir_carga_schema("x/s.toml", Err("sem permissão".to_string())) {
        Err(ErroSchema::Ilegivel { caminho, erro }) => {
            assert_eq!(caminho, "x/s.toml");
            assert_eq!(erro, "sem permissão");
        }
        outro => panic!("esperava Ilegivel, obtive {:?}", outro.map(|p| p.1)),
    }
}

#[test]
fn versao_e_o_nome_do_arquivo_sem_extensao() {
    assert_eq!(versao_do_caminho("schemas/elemento-requisito-v1.toml"), "elemento-requisito-v1");
    assert_eq!(versao_do_caminho("v2.1.toml"), "v2.1");
    assert_eq!(versao_do_caminho("dir/sem_extensao"), "sem_extensao");
    assert_eq!(versao_do_caminho("dir/.oculto"), ".oculto");
    assert_eq!(versao_do_caminho("dir/nome.toml/"), "nome");
    assert_eq!(versao_do_caminho("dir/nome.toml/."), "nome");
    assert_eq!(versao_do_caminho("a/.."), "");
    assert_eq!(versao_do_caminho("/"), "");
    assert_eq!(versao_do_caminho(""), "");
    assert_eq!(versao_do_caminho("fim."), "fim");
}

// --- schema_id -----------------------------------------------------------

#[test]
fn schema_id_sem_locale_usa_o_idioma_padrao() {
    assert_eq!(
        interpretar_schema_id("elemento-requisito-v1"),
        ("elemento-requisito-v1".to_string(), "en".to_string())
    );
    assert_eq!(
        interpretar_schema_id("elemento-requisito-v1;"),
        ("elemento-requisito-v1".to_string(), "en".to_string())
    );
}

#[test]
fn schema_id_usa_apenas_o_idioma_base_do_locale() {
    for entrada in [
        "elemento-requisito-v1;pt_BR",
        "elemento-requisito-v1;pt-br",
        "elemento-requisito-v1; PT_br ",
        "elemento-requisito-v1;pt",
    ] {
        let (_, idioma) = interpretar_schema_id(entrada);
        assert_eq!(idioma, "pt", "falhou para {entrada}");
    }
}

#[test]
fn schema_id_apara_a_versao_e_trata_locale_sem_base() {
    assert_eq!(interpretar_schema_id("  v1  ;  "), ("v1".to_string(), "en".to_string()));
    assert_eq!(interpretar_schema_id("v1;_BR"), ("v1".to_string(), "en".to_string()));
    assert_eq!(interpretar_schema_id("v1; -br"), ("v1".to_string(), "en".to_string()));
    assert_eq!(interpretar_schema_id("v1;de;x"), ("v1".to_string(), "de;x".to_string()));
}

// --- leitura de campo texto ------------------------------------------------

#[test]
fn ler_campo_texto_cobre_os_tres_casos() {
    let tabela = vec![
        ("numero".to_string(), Valor::Outro("integer".to_string())),
        ("presente".to_string(), Valor::Texto("ok".to_string())),
    ];

    assert_eq!(ler_campo_texto(&tabela, "presente", Msg::TipoAusente).unwrap(), "ok");

    let d = ler_campo_texto(&tabela, "numero", Msg::TipoAusente).unwrap_err();
    assert_eq!(d.msg.chave_e_args().0, "esperado-texto");
    assert!(matches!(d.local, Local::Campo(ref c) if c == "numero"));

    let d = ler_campo_texto(&tabela, "sumido", Msg::SchemaIdAusente).unwrap_err();
    assert_eq!(d.msg.chave_e_args().0, "schema-id-ausente");
}

#[test]
fn disponiveis_em_ordem_e_tem_coerente() {
    let idiomas = Idiomas::carregar(vec![("de".to_string(), Catalogo { ui: Mapa::novo(), msg: Mapa::novo(), plural: Mapa::novo() })]);
    let d = idiomas.disponiveis();
    assert_eq!(d, vec!["de".to_string(), "en".to_string(), "pt".to_string()]);
    for c in ["de", "en", "pt", "fr", ""] {
        assert_eq!(idiomas.tem(c), d.contains(&c.to_string()), "{c}");
    }
}

#[test]
fn cada_especie_de_mensagem_tem_sua_chave() {
    let mut chaves: Vec<&str> = uma_de_cada_mensagem().iter().map(|m| m.chave_e_args().0).collect();
    assert_eq!(chaves.len(), 26);
    chaves.sort();
    chaves.dedup();
    assert_eq!(chaves.len(), 26);
}
