use reqmeshval::mapa::Mapa;
use reqmeshval::texto::{
    alinhar_exec, aparar_exec, decimal_exec, dividir_no_primeiro, iguais_sem_caixa_ascii_exec, lex_menor_exec,
    substituir_exec, textos_iguais, unir_exec,
};
use reqmeshval::{codigo_de_catalogo, interpretar_schema_id, montar_log, Config, Idiomas};

#[test]
fn decimal_escreve_o_numero() {
    assert_eq!(decimal_exec(0), "0");
    assert_eq!(decimal_exec(7), "7");
    assert_eq!(decimal_exec(1234), "1234");
    assert_eq!(decimal_exec(usize::MAX), usize::MAX.to_string());
}

#[test]
fn alinhar_completa_com_espacos_e_nao_corta() {
    assert_eq!(alinhar_exec("data", 9), "data     ");
    assert_eq!(alinhar_exec("versão", 9), "versão   ");
    assert_eq!(alinhar_exec("arquivos longos", 9), "arquivos longos");
    assert_eq!(alinhar_exec("", 3), "   ");
}

#[test]
fn substituir_e_da_esquerda_sem_sobreposicao() {
    assert_eq!(substituir_exec("aaa", "aa", "x"), "xa");
    assert_eq!(substituir_exec("{n} de {n}", "{n}", "3"), "3 de 3");
    assert_eq!(substituir_exec("sem marcador", "{n}", "3"), "sem marcador");
    assert_eq!(substituir_exec("abc", "abc", ""), "");
}

#[test]
fn unir_poe_o_separador_entre_os_itens() {
    assert_eq!(unir_exec(&vec!["en".to_string(), "pt".to_string()], ", "), "en, pt");
    assert_eq!(unir_exec(&vec!["so".to_string()], "\n"), "so");
    assert_eq!(unir_exec(&Vec::new(), "\n"), "");
}

#[test]
fn aparar_tira_espacos_unicode_das_pontas() {
    assert_eq!(aparar_exec("  pt_BR \t\n"), "pt_BR");
    assert_eq!(aparar_exec("\u{3000}x y\u{a0}"), "x y");
    assert_eq!(aparar_exec("   "), "");
}

#[test]
fn dividir_no_primeiro_separador() {
    let (antes, depois) = dividir_no_primeiro("v1;pt;x", &vec![';']);
    assert_eq!(antes, "v1");
    assert_eq!(depois, Some("pt;x".to_string()));
    let (antes, depois) = dividir_no_primeiro("pt-BR_x", &vec!['_', '-']);
    assert_eq!(antes, "pt");
    assert_eq!(depois, Some("BR_x".to_string()));
    let (antes, depois) = dividir_no_primeiro("sem", &vec![';']);
    assert_eq!((antes.as_str(), depois), ("sem", None));
}

#[test]
fn comparacoes_de_texto() {
    assert!(textos_iguais("auto", "auto"));
    assert!(!textos_iguais("auto", "Auto"));
    assert!(iguais_sem_caixa_ascii_exec("AUTO", "auto"));
    assert!(iguais_sem_caixa_ascii_exec("AuTo", "aUtO"));
    assert!(!iguais_sem_caixa_ascii_exec("ÄUTO", "äuto"));
    assert!(lex_menor_exec("en", "pt"));
    assert!(lex_menor_exec("p", "pt"));
    assert!(!lex_menor_exec("pt", "pt"));
    assert!(!lex_menor_exec("pt", "en"));
}

#[test]
fn minusculas_segue_o_unicode() {
    assert_eq!(interpretar_schema_id("v1;ÇÃO_BR").1, "ção");
    assert_eq!(codigo_de_catalogo("i18n/ÉS.toml"), Some("és".to_string()));
}

#[test]
fn mapa_guarda_em_ordem_e_substitui() {
    let mut m: Mapa<u32> = Mapa::novo();
    m.inserir("pt".to_string(), 1);
    m.inserir("en".to_string(), 2);
    m.inserir("de".to_string(), 3);
    m.inserir("pt".to_string(), 4);
    assert_eq!(m.len(), 3);
    assert_eq!(m.chaves_lista(), vec!["de".to_string(), "en".to_string(), "pt".to_string()]);
    assert_eq!(m.get("pt"), Some(&4));
    assert_eq!(m.get("en"), Some(&2));
    assert_eq!(m.get("fr"), None);
    assert!(m.contains_key("de"));
    assert!(!m.contains_key("d"));
    let (k, v) = m.entrada(0);
    assert_eq!((k.as_str(), *v), ("de", 3));
}

#[test]
fn log_traz_a_data_do_momento() {
    let idiomas = Idiomas::carregar(Vec::new());
    let cfg = Config {
        caminho_schema: "s.toml".to_string(),
        arquivos: vec![],
        caminho_log: None,
        auto: false,
        l_geral: "en".to_string(),
        padrao: "en".to_string(),
    };
    let log = montar_log(&cfg, &Vec::new(), &idiomas);
    let linha = log.lines().nth(1).unwrap();
    assert!(linha.starts_with("date     : "), "{linha}");
    let data = &linha["date     : ".len()..];
    assert!(data.len() >= 20 && data.contains('T'), "{data}");
    assert!(log.contains("files    : 0"));
    assert!(log.ends_with("warnings : 0\n"));
}
