//! O schema dos Elementos de Requisito: campos com nomes por idioma, tipo
//! de dado, valores de enum e subcampos.

use vstd::prelude::*;

use crate::mapa::Mapa;

verus! {

/// Um valor canônico de enum, com os seus nomes por idioma.
pub struct DefValor {
    /// idioma → valor naquele idioma
    pub alias: Mapa<String>,
}

/// Definição de um campo.
pub struct DefCampo {
    pub obrigatorio: bool,
    pub tipo_dado: String,
    /// idioma → nome do campo naquele idioma
    pub alias: Mapa<String>,
    /// valor canônico → nomes por idioma (só para `tipo_dado = "enum"`)
    pub valores: Mapa<DefValor>,
    /// só para `tipo_dado = "array<tabela>"`; pares (nome canônico,
    /// definição) em ordem crescente de nome
    pub subcampos: Vec<(String, DefCampo)>,
}

/// O schema: campos comuns e campos próprios de cada tipo de elemento.
pub struct Schema {
    pub campos: Mapa<DefCampo>,
    pub campos_caso_de_uso: Mapa<DefCampo>,
    pub campos_ator: Mapa<DefCampo>,
}

} // verus!
