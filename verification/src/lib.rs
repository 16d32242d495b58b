//! Validador de Elementos de Requisito do ReqMesh.
//!
//! Os diagnósticos são dados (`Msg`), não texto: o idioma só entra na
//! renderização, pelos catálogos de mensagens. A validação, a leitura da
//! linha de comando e a montagem do log são funções que não imprimem
//! nada; quem fala com o mundo é o programa em volta.

pub mod caminho;
pub mod catalogos;
pub mod cli;
pub mod completude;
pub mod diagnostico;
pub mod execucao;
pub mod idiomas;
pub mod mapa;
pub mod schema;
pub mod texto;
pub mod validacao;
pub mod valor;

pub use caminho::{codigo_de_catalogo, versao_do_caminho};
pub use cli::{dir_catalogos, parse_cli, Acao, Config, ErroCli, ErroSchema};
pub use diagnostico::{Diagnostico, Local, Msg, Nivel, Relatorio};
pub use execucao::{concluir_carga_schema, formatar_arquivo, houve_erro, montar_log, montar_log_em};
pub use idiomas::{idioma_de_valores, Catalogo, FormasPlural, Idiomas, FALLBACK};
pub use mapa::Mapa;
pub use schema::{DefCampo, DefValor, Schema};
pub use validacao::{executar_validacao, interpretar_schema_id, ler_campo_texto, validar_conteudo, validar_documento};
pub use valor::Valor;
