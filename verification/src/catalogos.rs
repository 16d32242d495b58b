//! Catálogos de mensagens embutidos na biblioteca (`en` e `pt`). Cada
//! tabela lista pares (chave, texto); `{nome}` marca um argumento.

use vstd::prelude::*;

verus! {

pub const UI_EN: [(&'static str, &'static str); 28] = [
    ("titulo", "=== reqMeshVal — validation report ==="),
    ("data", "date"),
    ("schema", "schema"),
    ("versao", "version"),
    ("arquivos", "files"),
    ("idioma", "language"),
    ("tipo", "type"),
    ("ok", "OK"),
    ("falha", "FAILED"),
    ("resumo", "--- summary ---"),
    ("validos", "valid"),
    ("falhas", "failed"),
    ("erros", "errors"),
    ("avisos", "warnings"),
    ("nivel-erro", "ERROR"),
    ("nivel-aviso", "WARN"),
    ("local-arquivo", "(file)"),
    ("local-toml", "(toml)"),
    ("local-schema", "(schema)"),
    ("uso", "Usage: reqMeshVal <schema> <file1> [file2 ...] [options]\n\nOptions:\n  -i, --idioma, --lang <code|auto>  message language (auto: the one each file declares)\n  -l, --log <path>                  also write the report to a file\n  -c, --catalogos <dir>             load message catalogs from a directory\n      --idiomas                     list the available languages\n  -h, --help                        show this help"),
    ("catalogo-invalido", "reqMeshVal: catalog '{caminho}' ignored: {erro}"),
    ("log-nao-gravado", "reqMeshVal: could not write the log to '{caminho}': {erro}"),
    ("cli-faltam-args", "reqMeshVal: give the schema and at least one file."),
    ("cli-log-sem-caminho", "reqMeshVal: option --log needs a path."),
    ("cli-idioma-sem-valor", "reqMeshVal: option --idioma needs a language code or 'auto'."),
    ("cli-idioma-invalido", "reqMeshVal: no catalog for language '{idioma}'; available: {disponiveis}."),
    ("schema-ilegivel", "reqMeshVal: could not read the schema '{caminho}': {erro}"),
    ("schema-invalido", "reqMeshVal: invalid schema '{caminho}': {erro}"),
];

pub const MSG_EN: [(&'static str, &'static str); 26] = [
    ("arquivo-ilegivel", "unreadable file: {erro}"),
    ("toml-invalido", "invalid TOML: {erro}"),
    ("nao-eh-tabela-raiz", "the root of the file is not a table"),
    ("schema-id-ausente", "required field '{campo}' is missing"),
    ("versao-divergente", "the file declares version '{no_arquivo}', but the loaded schema is '{carregado}'"),
    ("schema-sem-campo-canonico", "the schema does not define the canonical field '{campo}'"),
    ("schema-sem-alias-do-campo", "the schema has no name for field '{campo}' in language '{idioma}'"),
    ("tipo-ausente", "type field is missing"),
    ("tipo-sem-campos-especificos", "type '{tipo}' has no specific fields in the schema"),
    ("esperado-texto", "expected text, found {encontrado}"),
    ("esperado-lista-textos", "expected a list of texts, found {encontrado}"),
    ("esperado-lista-tabelas", "expected a list of tables, found {encontrado}"),
    ("esperado-tabela", "expected a table, found {encontrado}"),
    ("lista-vazia-obrigatoria", "required list is empty"),
    ("enum-invalido", "invalid value '{valor}' in language '{idioma}'; allowed: {permitidos}"),
    ("enum-invalido-outro-idioma", "value '{valor}' belongs to language '{idioma_do_alias}' (canonical '{canonico}'), but the file declares '{idioma}'; allowed: {permitidos}"),
    ("alias-de-outro-idioma", "field '{canonico}' is written in language '{idioma_do_alias}', but the file declares '{idioma_declarado}'"),
    ("alias-de-outro-idioma-subcampo", "subfield '{canonico}' is written in language '{idioma_do_alias}', but the file declares '{idioma_declarado}'"),
    ("campo-desconhecido", "unknown field in language '{idioma}'"),
    ("subcampo-desconhecido", "unknown subfield in language '{idioma}'"),
    ("obrigatorio-ausente", "required field '{canonico}' is missing"),
    ("subcampo-obrigatorio-ausente", "required subfield '{canonico}' is missing"),
    ("tipo-dado-desconhecido", "unknown data type '{tipo_dado}' in the schema; the value is not validated"),
    ("sem-subcampos", "the schema defines no subfields for this list of tables"),
    ("alias-ambiguo", "name '{alias}' in language '{idioma}' serves both '{anterior}' and '{atual}'"),
    ("sem-alias-no-idioma", "field '{canonico}' has no name in language '{idioma}'"),
];

pub const PLURAL_EN: [(&'static str, &'static str, &'static str); 3] = [
    ("campos-reconhecidos", "{n} field recognized", "{n} fields recognized"),
    ("erros", "{n} error", "{n} errors"),
    ("avisos", "{n} warning", "{n} warnings"),
];

pub const UI_PT: [(&'static str, &'static str); 28] = [
    ("titulo", "=== reqMeshVal — relatório de validação ==="),
    ("data", "data"),
    ("schema", "schema"),
    ("versao", "versão"),
    ("arquivos", "arquivos"),
    ("idioma", "idioma"),
    ("tipo", "tipo"),
    ("ok", "OK"),
    ("falha", "FALHA"),
    ("resumo", "--- resumo ---"),
    ("validos", "válidos"),
    ("falhas", "falhas"),
    ("erros", "erros"),
    ("avisos", "avisos"),
    ("nivel-erro", "ERRO"),
    ("nivel-aviso", "AVISO"),
    ("local-arquivo", "(arquivo)"),
    ("local-toml", "(toml)"),
    ("local-schema", "(schema)"),
    ("uso", "Uso: reqMeshVal <schema> <arquivo1> [arquivo2 ...] [opções]\n\nOpções:\n  -i, --idioma, --lang <código|auto>  idioma das mensagens (auto: o que cada arquivo declara)\n  -l, --log <caminho>                 grava o relatório também em arquivo\n  -c, --catalogos <dir>               carrega catálogos de mensagens de um diretório\n      --idiomas                       lista os idiomas disponíveis\n  -h, --help                          mostra esta ajuda"),
    ("catalogo-invalido", "reqMeshVal: catálogo '{caminho}' ignorado: {erro}"),
    ("log-nao-gravado", "reqMeshVal: não foi possível gravar o log em '{caminho}': {erro}"),
    ("cli-faltam-args", "reqMeshVal: informe o schema e ao menos um arquivo."),
    ("cli-log-sem-caminho", "reqMeshVal: a opção --log exige um caminho."),
    ("cli-idioma-sem-valor", "reqMeshVal: a opção --idioma exige um código de idioma ou 'auto'."),
    ("cli-idioma-invalido", "reqMeshVal: idioma '{idioma}' sem catálogo; disponíveis: {disponiveis}."),
    ("schema-ilegivel", "reqMeshVal: não foi possível ler o schema '{caminho}': {erro}"),
    ("schema-invalido", "reqMeshVal: schema '{caminho}' inválido: {erro}"),
];

pub const MSG_PT: [(&'static str, &'static str); 26] = [
    ("arquivo-ilegivel", "arquivo ilegível: {erro}"),
    ("toml-invalido", "TOML inválido: {erro}"),
    ("nao-eh-tabela-raiz", "a raiz do arquivo não é uma tabela"),
    ("schema-id-ausente", "campo obrigatório '{campo}' ausente"),
    ("versao-divergente", "o arquivo declara a versão '{no_arquivo}', mas o schema carregado é '{carregado}'"),
    ("schema-sem-campo-canonico", "o schema não define o campo canônico '{campo}'"),
    ("schema-sem-alias-do-campo", "o schema não tem nome para o campo '{campo}' no idioma '{idioma}'"),
    ("tipo-ausente", "campo de tipo ausente"),
    ("tipo-sem-campos-especificos", "o tipo '{tipo}' não tem campos específicos no schema"),
    ("esperado-texto", "esperava texto, encontrou {encontrado}"),
    ("esperado-lista-textos", "esperava lista de textos, encontrou {encontrado}"),
    ("esperado-lista-tabelas", "esperava lista de tabelas, encontrou {encontrado}"),
    ("esperado-tabela", "esperava tabela, encontrou {encontrado}"),
    ("lista-vazia-obrigatoria", "lista obrigatória está vazia"),
    ("enum-invalido", "valor '{valor}' inválido no idioma '{idioma}'; permitidos: {permitidos}"),
    ("enum-invalido-outro-idioma", "o valor '{valor}' é do idioma '{idioma_do_alias}' (canônico '{canonico}'), mas o arquivo declara '{idioma}'; permitidos: {permitidos}"),
    ("alias-de-outro-idioma", "campo '{canonico}' escrito no idioma '{idioma_do_alias}', mas o arquivo declara '{idioma_declarado}'"),
    ("alias-de-outro-idioma-subcampo", "subcampo '{canonico}' escrito no idioma '{idioma_do_alias}', mas o arquivo declara '{idioma_declarado}'"),
    ("campo-desconhecido", "campo desconhecido no idioma '{idioma}'"),
    ("subcampo-desconhecido", "subcampo desconhecido no idioma '{idioma}'"),
    ("obrigatorio-ausente", "campo obrigatório '{canonico}' ausente"),
    ("subcampo-obrigatorio-ausente", "subcampo obrigatório '{canonico}' ausente"),
    ("tipo-dado-desconhecido", "tipo de dado '{tipo_dado}' desconhecido no schema; valor não verificado"),
    ("sem-subcampos", "o schema não define subcampos para esta lista de tabelas"),
    ("alias-ambiguo", "o nome '{alias}' no idioma '{idioma}' serve a '{anterior}' e a '{atual}'"),
    ("sem-alias-no-idioma", "o campo '{canonico}' não tem nome no idioma '{idioma}'"),
];

pub const PLURAL_PT: [(&'static str, &'static str, &'static str); 3] = [
    ("campos-reconhecidos", "{n} campo reconhecido", "{n} campos reconhecidos"),
    ("erros", "{n} erro", "{n} erros"),
    ("avisos", "{n} aviso", "{n} avisos"),
];

} // verus!
