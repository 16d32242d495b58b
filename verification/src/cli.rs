//! Linha de comando como dados: o que foi pedido, ou o erro de uso.

use vstd::prelude::*;

use crate::diagnostico::opt_v;
use crate::catalogos::{UI_EN, UI_PT};
use crate::idiomas::{args_v, interpolar, pares, texto_v, CatalogoV, Idiomas, Secao};
use crate::mapa::{buscar, chaves_de};
use crate::texto::{iguais_sem_caixa_ascii, iguais_sem_caixa_ascii_exec, minusculas, minusculas_exec, textos, textos_iguais, unir, unir_exec};

verus! {

/// Configuração de uma execução de validação, já resolvida.
#[derive(Debug, Clone, PartialEq, Eq)]
pub struct Config {
    pub caminho_schema: String,
    pub arquivos: Vec<String>,
    pub caminho_log: Option<String>,
    /// `--idioma auto`: cada arquivo é reportado no idioma que declara.
    pub auto: bool,
    /// Idioma do cabeçalho, do resumo e das mensagens fora de arquivo.
    pub l_geral: String,
    /// Idioma do ambiente já resolvido; reserva do modo auto.
    pub padrao: String,
}

pub struct ConfigV {
    pub caminho_schema: Seq<char>,
    pub arquivos: Seq<Seq<char>>,
    pub caminho_log: Option<Seq<char>>,
    pub auto: bool,
    pub l_geral: Seq<char>,
    pub padrao: Seq<char>,
}

impl View for Config {
    type V = ConfigV;

    open spec fn view(&self) -> ConfigV {
        ConfigV {
            caminho_schema: self.caminho_schema@,
            arquivos: textos(self.arquivos@),
            caminho_log: match self.caminho_log {
                Some(c) => Some(c@),
                None => None,
            },
            auto: self.auto,
            l_geral: self.l_geral@,
            padrao: self.padrao@,
        }
    }
}

/// O que a linha de comando pediu.
#[derive(Debug, Clone, PartialEq, Eq)]
pub enum Acao {
    /// `--help` / `--idiomas`: imprimir e sair com sucesso.
    Imprimir(String),
    Validar(Config),
}

pub enum AcaoV {
    Imprimir(Seq<char>),
    Validar(ConfigV),
}

impl View for Acao {
    type V = AcaoV;

    open spec fn view(&self) -> AcaoV {
        match self {
            Acao::Imprimir(t) => AcaoV::Imprimir(t@),
            Acao::Validar(c) => AcaoV::Validar(c@),
        }
    }
}

/// Erros de uso da linha de comando.
#[derive(Debug, Clone, PartialEq, Eq)]
pub enum ErroCli {
    FaltamArgs,
    LogSemCaminho,
    IdiomaSemValor,
    IdiomaInvalido { idioma: String, disponiveis: Vec<String> },
}

pub enum ErroCliV {
    FaltamArgs,
    LogSemCaminho,
    IdiomaSemValor,
    IdiomaInvalido { idioma: Seq<char>, disponiveis: Seq<Seq<char>> },
}

impl View for ErroCli {
    type V = ErroCliV;

    open spec fn view(&self) -> ErroCliV {
        match self {
            ErroCli::FaltamArgs => ErroCliV::FaltamArgs,
            ErroCli::LogSemCaminho => ErroCliV::LogSemCaminho,
            ErroCli::IdiomaSemValor => ErroCliV::IdiomaSemValor,
            ErroCli::IdiomaInvalido { idioma, disponiveis } => ErroCliV::IdiomaInvalido {
                idioma: idioma@,
                disponiveis: textos(disponiveis@),
            },
        }
    }
}

pub open spec fn chave_erro_cli(e: ErroCliV) -> Seq<char> {
    match e {
        ErroCliV::FaltamArgs => "cli-faltam-args"@,
        ErroCliV::LogSemCaminho => "cli-log-sem-caminho"@,
        ErroCliV::IdiomaSemValor => "cli-idioma-sem-valor"@,
        ErroCliV::IdiomaInvalido { .. } => "cli-idioma-invalido"@,
    }
}

pub open spec fn args_erro_cli(e: ErroCliV) -> Seq<(Seq<char>, Seq<char>)> {
    match e {
        ErroCliV::IdiomaInvalido { idioma, disponiveis } => seq![("idioma"@, idioma), ("disponiveis"@, unir(disponiveis, ", "@))],
        _ => seq![],
    }
}

/// Erro de forma de invocação vem com o texto de uso.
pub open spec fn mostra_uso_v(e: ErroCliV) -> bool {
    e is FaltamArgs || e is LogSemCaminho
}

pub open spec fn render_erro_cli(id: Seq<(Seq<char>, CatalogoV)>, codigo: Seq<char>, e: ErroCliV) -> Seq<char> {
    let t = interpolar(texto_v(id, codigo, Secao::Ui, chave_erro_cli(e)), args_erro_cli(e));
    if mostra_uso_v(e) {
        t + "\n\n"@ + texto_v(id, codigo, Secao::Ui, "uso"@)
    } else {
        t
    }
}

impl ErroCli {
    pub fn chave_e_args(&self) -> (r: (&'static str, Vec<(&'static str, String)>))
        ensures
            r.0@ == chave_erro_cli(self@),
            args_v(r.1@) == args_erro_cli(self@),
    {
        let r: (&'static str, Vec<(&'static str, String)>) = match self {
            ErroCli::FaltamArgs => ("cli-faltam-args", vec![]),
            ErroCli::LogSemCaminho => ("cli-log-sem-caminho", vec![]),
            ErroCli::IdiomaSemValor => ("cli-idioma-sem-valor", vec![]),
            ErroCli::IdiomaInvalido { idioma, disponiveis } => (
                "cli-idioma-invalido",
                vec![("idioma", idioma.clone()), ("disponiveis", unir_exec(disponiveis, ", "))],
            ),
        };
        assert(args_v(r.1@) =~= args_erro_cli(self@));
        r
    }

    fn mostra_uso(&self) -> (r: bool)
        ensures
            r == mostra_uso_v(self@),
    {
        match self {
            ErroCli::FaltamArgs | ErroCli::LogSemCaminho => true,
            _ => false,
        }
    }

    pub fn render(&self, idiomas: &Idiomas, codigo: &str) -> (r: String)
        ensures
            r@ == render_erro_cli(idiomas@, codigo@, self@),
    {
        let (chave, args) = self.chave_e_args();
        let mut texto = idiomas.ui(codigo, chave, &args);
        if self.mostra_uso() {
            texto.append("\n\n");
            let uso = idiomas.rot(codigo, "uso");
            texto.append(uso.as_str());
        }
        texto
    }
}

/// Falhas ao carregar o schema — fatais, mas ainda assim dados.
#[derive(Debug, Clone, PartialEq, Eq)]
pub enum ErroSchema {
    Ilegivel { caminho: String, erro: String },
    Invalido { caminho: String, erro: String },
}

pub open spec fn chave_erro_schema(e: ErroSchema) -> Seq<char> {
    match e {
        ErroSchema::Ilegivel { .. } => "schema-ilegivel"@,
        ErroSchema::Invalido { .. } => "schema-invalido"@,
    }
}

pub open spec fn args_erro_schema(e: ErroSchema) -> Seq<(Seq<char>, Seq<char>)> {
    match e {
        ErroSchema::Ilegivel { caminho, erro } => seq![("caminho"@, caminho@), ("erro"@, erro@)],
        ErroSchema::Invalido { caminho, erro } => seq![("caminho"@, caminho@), ("erro"@, erro@)],
    }
}

impl ErroSchema {
    pub fn chave_e_args(&self) -> (r: (&'static str, Vec<(&'static str, String)>))
        ensures
            r.0@ == chave_erro_schema(*self),
            args_v(r.1@) == args_erro_schema(*self),
    {
        let (chave, caminho, erro) = match self {
            ErroSchema::Ilegivel { caminho, erro } => ("schema-ilegivel", caminho, erro),
            ErroSchema::Invalido { caminho, erro } => ("schema-invalido", caminho, erro),
        };
        let r: (&'static str, Vec<(&'static str, String)>) = (chave, vec![("caminho", caminho.clone()), ("erro", erro.clone())]);
        assert(args_v(r.1@) =~= args_erro_schema(*self));
        r
    }

    pub fn render(&self, idiomas: &Idiomas, codigo: &str) -> (r: String)
        ensures
            r@ == interpolar(texto_v(idiomas@, codigo@, Secao::Ui, chave_erro_schema(*self)), args_erro_schema(*self)),
    {
        let (chave, args) = self.chave_e_args();
        idiomas.ui(codigo, chave, &args)
    }
}

pub open spec fn flag_catalogos(a: Seq<char>) -> bool {
    a == "-c"@ || a == "--catalogos"@
}

fn flag_catalogos_exec(a: &str) -> (r: bool)
    ensures
        r == flag_catalogos(a@),
{
    textos_iguais(a, "-c") || textos_iguais(a, "--catalogos")
}

/// Varredura prévia por `--catalogos`: o valor da última ocorrência que
/// tem valor, se houver.
pub fn dir_catalogos(args: &Vec<String>) -> (r: Option<String>)
    ensures
        match r {
            Some(d) => exists|i: int|
                0 <= i < args@.len() - 1 && flag_catalogos(#[trigger] args@[i]@) && args@[i + 1]@ == d@
                    && forall|j: int| i < j < args@.len() - 1 ==> !flag_catalogos(#[trigger] args@[j]@),
            None => forall|j: int| 0 <= j < args@.len() - 1 ==> !flag_catalogos(#[trigger] args@[j]@),
        },
{
    let mut dir: Option<String> = None;
    let ghost mut onde: int = -1;
    let mut i: usize = 0;
    while i < args.len()
        invariant
            0 <= i <= args@.len(),
            -1 <= onde < i,
            match dir {
                Some(d) => 0 <= onde < args@.len() - 1 && flag_catalogos(args@[onde]@) && args@[onde + 1]@ == d@,
                None => onde == -1,
            },
            forall|j: int| onde < j < i && j < args@.len() - 1 ==> !flag_catalogos(#[trigger] args@[j]@),
        decreases args@.len() - i,
    {
        if flag_catalogos_exec(args[i].as_str()) && i + 1 < args.len() {
            dir = Some(args[i + 1].clone());
            proof {
                onde = i as int;
            }
        }
        i = i + 1;
    }
    dir
}

} // verus!

verus! {

/// O que a varredura dos argumentos já acumulou.
pub struct EstadoCli {
    pub posicionais: Seq<Seq<char>>,
    pub log: Option<Seq<char>>,
    /// `None`: seguir o padrão; `Some(None)`: auto; `Some(Some(c))`: fixo.
    pub pedido: Option<Option<Seq<char>>>,
}

pub open spec fn estado_inicial() -> EstadoCli {
    EstadoCli { posicionais: Seq::empty(), log: None, pedido: None }
}

pub open spec fn eh_ajuda(a: Seq<char>) -> bool {
    a == "-h"@ || a == "--help"@
}

pub open spec fn eh_log(a: Seq<char>) -> bool {
    a == "-l"@ || a == "--log"@
}

pub open spec fn eh_idioma(a: Seq<char>) -> bool {
    a == "-i"@ || a == "--idioma"@ || a == "--lang"@
}

/// Fecha a varredura: precisa do schema e de ao menos um arquivo.
pub open spec fn finalizar_cli(est: EstadoCli, padrao: Seq<char>) -> Result<AcaoV, ErroCliV> {
    if est.posicionais.len() < 2 {
        Err(ErroCliV::FaltamArgs)
    } else {
        Ok(AcaoV::Validar(ConfigV {
            caminho_schema: est.posicionais[0],
            arquivos: est.posicionais.skip(1),
            caminho_log: est.log,
            auto: est.pedido == Some(None::<Seq<char>>),
            l_geral: match est.pedido {
                Some(Some(c)) => c,
                _ => padrao,
            },
            padrao: padrao,
        }))
    }
}

/// A interpretação dos argumentos a partir da posição `i`, da esquerda
/// para a direita: ajuda e lista de idiomas encerram na hora; `-c` pula o
/// seu valor; `-l` e `-i` exigem valor; o último `-i` vale; o resto é
/// posicional.
pub open spec fn cli_desde(
    args: Seq<Seq<char>>,
    id: Seq<(Seq<char>, CatalogoV)>,
    padrao: Seq<char>,
    i: int,
    est: EstadoCli,
) -> Result<AcaoV, ErroCliV>
    decreases args.len() + 1 - i,
{
    if i < 0 || i >= args.len() {
        finalizar_cli(est, padrao)
    } else {
        let a = args[i];
        if eh_ajuda(a) {
            Ok(AcaoV::Imprimir(texto_v(id, padrao, Secao::Ui, "uso"@)))
        } else if a == "--idiomas"@ {
            Ok(AcaoV::Imprimir(unir(chaves_de(id), "\n"@)))
        } else if flag_catalogos(a) {
            cli_desde(args, id, padrao, i + 2, est)
        } else if eh_log(a) {
            if i + 1 < args.len() {
                cli_desde(args, id, padrao, i + 2, EstadoCli { log: Some(args[i + 1]), ..est })
            } else {
                Err(ErroCliV::LogSemCaminho)
            }
        } else if eh_idioma(a) {
            if i + 1 < args.len() {
                let v = args[i + 1];
                if iguais_sem_caixa_ascii(v, "auto"@) {
                    cli_desde(args, id, padrao, i + 2, EstadoCli { pedido: Some(None), ..est })
                } else if buscar(id, minusculas(v)) is Some {
                    cli_desde(args, id, padrao, i + 2, EstadoCli { pedido: Some(Some(minusculas(v))), ..est })
                } else {
                    Err(ErroCliV::IdiomaInvalido { idioma: minusculas(v), disponiveis: chaves_de(id) })
                }
            } else {
                Err(ErroCliV::IdiomaSemValor)
            }
        } else {
            cli_desde(args, id, padrao, i + 1, EstadoCli { posicionais: est.posicionais.push(a), ..est })
        }
    }
}

/// O que toda configuração de validação aceita garante: há ao menos um
/// arquivo, o idioma do ambiente segue junto, e o idioma geral é o do
/// ambiente (no modo `auto`, sempre) ou um idioma com catálogo.
pub open spec fn config_coerente(c: ConfigV, id: Seq<(Seq<char>, CatalogoV)>, padrao: Seq<char>) -> bool {
    &&& c.arquivos.len() >= 1
    &&& c.padrao == padrao
    &&& c.auto ==> c.l_geral == padrao
    &&& !c.auto ==> (c.l_geral == padrao || buscar(id, c.l_geral) is Some)
}

pub open spec fn pedido_valido(est: EstadoCli, id: Seq<(Seq<char>, CatalogoV)>) -> bool {
    match est.pedido {
        Some(Some(c)) => buscar(id, c) is Some,
        _ => true,
    }
}

proof fn lema_cli_desde_coerente(
    args: Seq<Seq<char>>,
    id: Seq<(Seq<char>, CatalogoV)>,
    padrao: Seq<char>,
    i: int,
    est: EstadoCli,
)
    requires
        pedido_valido(est, id),
    ensures
        match cli_desde(args, id, padrao, i, est) {
            Ok(AcaoV::Validar(c)) => config_coerente(c, id, padrao),
            _ => true,
        },
    decreases args.len() + 1 - i,
{
    if i < 0 || i >= args.len() {
    } else {
        let a = args[i];
        if eh_ajuda(a) || a == "--idiomas"@ {
        } else if flag_catalogos(a) {
            lema_cli_desde_coerente(args, id, padrao, i + 2, est);
        } else if eh_log(a) {
            if i + 1 < args.len() {
                lema_cli_desde_coerente(args, id, padrao, i + 2, EstadoCli { log: Some(args[i + 1]), ..est });
            }
        } else if eh_idioma(a) {
            if i + 1 < args.len() {
                let v = args[i + 1];
                if iguais_sem_caixa_ascii(v, "auto"@) {
                    lema_cli_desde_coerente(args, id, padrao, i + 2, EstadoCli { pedido: Some(None), ..est });
                } else if buscar(id, minusculas(v)) is Some {
                    lema_cli_desde_coerente(args, id, padrao, i + 2, EstadoCli { pedido: Some(Some(minusculas(v))), ..est });
                }
            }
        } else {
            lema_cli_desde_coerente(args, id, padrao, i + 1, EstadoCli { posicionais: est.posicionais.push(a), ..est });
        }
    }
}

/// Toda configuração que a linha de comando aceita para validar tem ao
/// menos um arquivo, leva o idioma do ambiente, e seu idioma geral é o do
/// ambiente (sempre, no modo `auto`) ou um idioma com catálogo carregado.
pub proof fn lei_config_aceita_e_coerente(args: Seq<Seq<char>>, id: Seq<(Seq<char>, CatalogoV)>, padrao: Seq<char>)
    ensures
        match cli_desde(args, id, padrao, 0, estado_inicial()) {
            Ok(AcaoV::Validar(c)) => config_coerente(c, id, padrao),
            _ => true,
        },
{
    lema_cli_desde_coerente(args, id, padrao, 0, estado_inicial());
}

/// O estado da varredura a partir das variáveis que a percorrem.
pub open spec fn estado_de(pos: Seq<String>, log: Option<String>, pedido: Option<Option<String>>) -> EstadoCli {
    EstadoCli {
        posicionais: textos(pos),
        log: opt_v(log),
        pedido: match pedido {
            Some(Some(c)) => Some(Some(c@)),
            Some(None) => Some(None),
            None => None,
        },
    }
}

pub open spec fn resultado_cli_v(r: Result<Acao, ErroCli>) -> Result<AcaoV, ErroCliV> {
    match r {
        Ok(a) => Ok(a@),
        Err(e) => Err(e@),
    }
}

/// Interpreta os argumentos (já sem o nome do programa).
pub fn parse_cli(args: &Vec<String>, idiomas: &Idiomas, padrao: &str) -> (r: Result<Acao, ErroCli>)
    ensures
        resultado_cli_v(r) == cli_desde(textos(args@), idiomas@, padrao@, 0, estado_inicial()),
{
    let ghost a = textos(args@);
    let ghost id = idiomas@;
    let mut posicionais: Vec<String> = Vec::new();
    let mut caminho_log: Option<String> = None;
    let mut idioma_pedido: Option<Option<String>> = None;
    let ghost est0 = estado_inicial();
    assert(textos(posicionais@) =~= Seq::<Seq<char>>::empty());
    let mut i: usize = 0;
    while i < args.len()
        invariant
            a == textos(args@),
            a.len() == args@.len(),
            id == idiomas@,
            est0 == estado_inicial(),
            0 <= i <= args@.len(),
            cli_desde(a, id, padrao@, 0, est0) == cli_desde(
                a,
                id,
                padrao@,
                i as int,
                estado_de(posicionais@, caminho_log, idioma_pedido),
            ),
        decreases args@.len() + 1 - i,
    {
        let arg = args[i].as_str();
        assert(a[i as int] == arg@);
        if textos_iguais(arg, "-h") || textos_iguais(arg, "--help") {
            let uso = idiomas.rot(padrao, "uso");
            assert(eh_ajuda(a[i as int]));
            assert(0 <= i < a.len());
            return Ok(Acao::Imprimir(uso));
        }
        if textos_iguais(arg, "--idiomas") {
            let lista = idiomas.disponiveis();
            return Ok(Acao::Imprimir(unir_exec(&lista, "\n")));
        }
        if textos_iguais(arg, "-c") || textos_iguais(arg, "--catalogos") {
            // o valor já foi tratado por `dir_catalogos`
            if i + 1 < args.len() {
                i = i + 2;
            } else {
                proof {
                    let est = estado_de(posicionais@, caminho_log, idioma_pedido);
                    assert(cli_desde(a, id, padrao@, i + 2, est) == finalizar_cli(est, padrao@));
                    assert(cli_desde(a, id, padrao@, a.len() as int, est) == finalizar_cli(est, padrao@));
                }
                i = args.len();
            }
        } else if textos_iguais(arg, "-l") || textos_iguais(arg, "--log") {
            if i + 1 < args.len() {
                assert(a[i + 1] == args@[i + 1]@);
                caminho_log = Some(args[i + 1].clone());
                i = i + 2;
            } else {
                return Err(ErroCli::LogSemCaminho);
            }
        } else if textos_iguais(arg, "-i") || textos_iguais(arg, "--idioma") || textos_iguais(arg, "--lang") {
            if i + 1 < args.len() {
                let v = args[i + 1].as_str();
                assert(a[i + 1] == v@);
                if iguais_sem_caixa_ascii_exec(v, "auto") {
                    idioma_pedido = Some(None);
                } else {
                    let cod = minusculas_exec(v);
                    if !idiomas.tem(cod.as_str()) {
                        let disponiveis = idiomas.disponiveis();
                        return Err(ErroCli::IdiomaInvalido { idioma: cod, disponiveis });
                    }
                    idioma_pedido = Some(Some(cod));
                }
                i = i + 2;
            } else {
                return Err(ErroCli::IdiomaSemValor);
            }
        } else {
            let ghost antes = posicionais@;
            posicionais.push(args[i].clone());
            assert(textos(posicionais@) =~= textos(antes).push(a[i as int]));
            i = i + 1;
        }
    }
    if posicionais.len() < 2 {
        return Err(ErroCli::FaltamArgs);
    }
    let caminho_schema = posicionais[0].clone();
    let mut arquivos: Vec<String> = Vec::new();
    let mut j: usize = 1;
    while j < posicionais.len()
        invariant
            1 <= j <= posicionais@.len(),
            textos(arquivos@) == textos(posicionais@).subrange(1, j as int),
        decreases posicionais@.len() - j,
    {
        let ghost antes = arquivos@;
        arquivos.push(posicionais[j].clone());
        assert(textos(arquivos@) =~= textos(antes).push(textos(posicionais@)[j as int]));
        j = j + 1;
        assert(textos(arquivos@) =~= textos(posicionais@).subrange(1, j as int));
    }
    assert(textos(posicionais@).subrange(1, posicionais@.len() as int) =~= textos(posicionais@).skip(1));
    let auto = match &idioma_pedido {
        Some(None) => true,
        _ => false,
    };
    let l_geral = match &idioma_pedido {
        Some(Some(cod)) => cod.clone(),
        _ => String::from_str(padrao),
    };
    Ok(Acao::Validar(Config {
        caminho_schema,
        arquivos,
        caminho_log,
        auto,
        l_geral,
        padrao: String::from_str(padrao),
    }))
}

/// Todo erro de uso e todo erro de schema tem texto na seção de
/// interface de cada catálogo embutido, e o texto de uso também.
pub proof fn lei_todo_erro_tem_texto_embutido(e: ErroCliV, es: ErroSchema, c: Seq<char>)
    requires
        c == "en"@ || c == "pt"@,
    ensures
        crate::idiomas::procurar(crate::idiomas::embutidos(), c, Secao::Ui, chave_erro_cli(e)) is Some,
        crate::idiomas::procurar(crate::idiomas::embutidos(), c, Secao::Ui, chave_erro_schema(es)) is Some,
        crate::idiomas::procurar(crate::idiomas::embutidos(), c, Secao::Ui, "uso"@) is Some,
{
    lema_chaves_de_erro_embutidas(chave_erro_cli(e), chave_erro_schema(es));
}

proof fn lema_chaves_de_erro_embutidas(k1: Seq<char>, k2: Seq<char>)
    requires
        k1 == "cli-faltam-args"@ || k1 == "cli-log-sem-caminho"@ || k1 == "cli-idioma-sem-valor"@ || k1 == "cli-idioma-invalido"@,
        k2 == "schema-ilegivel"@ || k2 == "schema-invalido"@,
    ensures
        forall|c: Seq<char>| (c == "en"@ || c == "pt"@) ==> {
            &&& #[trigger] crate::idiomas::procurar(crate::idiomas::embutidos(), c, Secao::Ui, k1) is Some
            &&& crate::idiomas::procurar(crate::idiomas::embutidos(), c, Secao::Ui, k2) is Some
            &&& crate::idiomas::procurar(crate::idiomas::embutidos(), c, Secao::Ui, "uso"@) is Some
        },
{
    crate::idiomas::lema_catalogos_embutidos();
    let i1: int = if k1 == "cli-faltam-args"@ { 22 } else if k1 == "cli-log-sem-caminho"@ { 23 } else if k1
        == "cli-idioma-sem-valor"@ { 24 } else { 25 };
    let i2: int = if k2 == "schema-ilegivel"@ { 26 } else { 27 };
    assert(pares(UI_EN@)[i1].0 == k1 && pares(UI_PT@)[i1].0 == k1);
    assert(pares(UI_EN@)[i2].0 == k2 && pares(UI_PT@)[i2].0 == k2);
    assert(pares(UI_EN@)[19].0 == "uso"@ && pares(UI_PT@)[19].0 == "uso"@);
    crate::mapa::lema_inserir_todos_presente(Seq::empty(), pares(UI_EN@), k1, i1);
    crate::mapa::lema_inserir_todos_presente(Seq::empty(), pares(UI_PT@), k1, i1);
    crate::mapa::lema_inserir_todos_presente(Seq::empty(), pares(UI_EN@), k2, i2);
    crate::mapa::lema_inserir_todos_presente(Seq::empty(), pares(UI_PT@), k2, i2);
    crate::mapa::lema_inserir_todos_presente(Seq::empty(), pares(UI_EN@), "uso"@, 19);
    crate::mapa::lema_inserir_todos_presente(Seq::empty(), pares(UI_PT@), "uso"@, 19);
}

/// Opção que consome o argumento seguinte como valor.
pub open spec fn toma_valor(a: Seq<char>) -> bool {
    a == "-c"@ || a == "--catalogos"@ || a == "-l"@ || a == "--log"@ || a == "-i"@ || a == "--idioma"@ || a == "--lang"@
}

/// A varredura que parte da posição `i` passa pela posição `j` (como
/// opção ou posicional, não como valor de uma opção).
pub open spec fn alcanca(args: Seq<Seq<char>>, i: int, j: int) -> bool
    decreases j - i,
{
    if i == j {
        true
    } else if 0 <= i < j {
        let n = i + if toma_valor(args[i]) { 2int } else { 1int };
        if n <= j {
            alcanca(args, n, j)
        } else {
            false
        }
    } else {
        false
    }
}

proof fn lema_log_longo_curto(
    args: Seq<Seq<char>>,
    id: Seq<(Seq<char>, CatalogoV)>,
    padrao: Seq<char>,
    i: int,
    j: int,
    est: EstadoCli,
)
    requires
        0 <= i <= j < args.len(),
        alcanca(args, i, j),
        args[j] == "--log"@,
    ensures
        cli_desde(args, id, padrao, i, est) == cli_desde(args.update(j, "-l"@), id, padrao, i, est),
    decreases j - i,
{
    let b = args.update(j, "-l"@);
    reveal_strlit("-l");
    reveal_strlit("--log");
    reveal_strlit("-h");
    reveal_strlit("--help");
    reveal_strlit("--idiomas");
    reveal_strlit("-c");
    reveal_strlit("--catalogos");
    reveal_strlit("-i");
    reveal_strlit("--idioma");
    reveal_strlit("--lang");
    assert(b.len() == args.len());
    if i == j {
        assert(eh_log(args[j]) && eh_log(b[j]));
        assert(!eh_ajuda(args[j]) && !eh_ajuda(b[j])) by {
            assert("--log"@.len() == 5 && "-l"@.len() == 2);
            assert("-h"@[1] != "-l"@[1]);
        }
        assert(args[j] != "--idiomas"@ && b[j] != "--idiomas"@) by {
            assert("--idiomas"@.len() == 9);
            assert("--log"@.len() == 5 && "-l"@.len() == 2);
        }
        assert(!flag_catalogos(args[j]) && !flag_catalogos(b[j])) by {
            assert("-c"@[1] != "-l"@[1]);
            assert("--catalogos"@.len() == 11);
        }
        if j + 1 < args.len() {
            assert(b[j + 1] == args[j + 1]);
            lema_cli_so_le_adiante(args, b, id, padrao, j + 2, EstadoCli { log: Some(args[j + 1]), ..est });
        }
    } else {
        assert(b[i] == args[i]);
        let a = args[i];
        let passo: int = if toma_valor(a) { 2 } else { 1 };
        assert(i + passo <= j);
        assert(alcanca(args, i + passo, j));
        {
            lema_log_longo_curto(args, id, padrao, i + passo, j, est);
            if eh_log(a) {
                lema_log_longo_curto(args, id, padrao, i + passo, j, EstadoCli { log: Some(args[i + 1]), ..est });
                assert(b[i + 1] == args[i + 1]);
            } else if eh_idioma(a) {
                assert(b[i + 1] == args[i + 1]);
                let v = args[i + 1];
                lema_log_longo_curto(args, id, padrao, i + passo, j, EstadoCli { pedido: Some(None), ..est });
                lema_log_longo_curto(args, id, padrao, i + passo, j, EstadoCli { pedido: Some(Some(minusculas(v))), ..est });
            } else if !flag_catalogos(a) {
                lema_log_longo_curto(args, id, padrao, i + passo, j, EstadoCli { posicionais: est.posicionais.push(a), ..est });
            }
        }
    }
}

proof fn lema_cli_so_le_adiante(
    args: Seq<Seq<char>>,
    b: Seq<Seq<char>>,
    id: Seq<(Seq<char>, CatalogoV)>,
    padrao: Seq<char>,
    i: int,
    est: EstadoCli,
)
    requires
        args.len() == b.len(),
        forall|k: int| i <= k < args.len() ==> #[trigger] args[k] == b[k],
    ensures
        cli_desde(args, id, padrao, i, est) == cli_desde(b, id, padrao, i, est),
    decreases args.len() + 1 - i,
{
    if 0 <= i < args.len() {
        let a = args[i];
        assert(b[i] == a);
        if i + 1 < args.len() {
            assert(b[i + 1] == args[i + 1]);
        }
        lema_cli_so_le_adiante(args, b, id, padrao, i + 2, est);
        lema_cli_so_le_adiante(args, b, id, padrao, i + 1, EstadoCli { posicionais: est.posicionais.push(a), ..est });
        if i + 1 < args.len() {
            let v = args[i + 1];
            lema_cli_so_le_adiante(args, b, id, padrao, i + 2, EstadoCli { log: Some(v), ..est });
            lema_cli_so_le_adiante(args, b, id, padrao, i + 2, EstadoCli { pedido: Some(None), ..est });
            lema_cli_so_le_adiante(args, b, id, padrao, i + 2, EstadoCli { pedido: Some(Some(minusculas(v))), ..est });
        }
    }
}

/// `--log` e `-l` são a mesma opção: trocar uma pela outra, onde a
/// varredura a encontra como opção, não muda o resultado da linha de
/// comando.
pub proof fn lei_log_longo_igual_ao_curto(args: Seq<Seq<char>>, id: Seq<(Seq<char>, CatalogoV)>, padrao: Seq<char>, j: int)
    requires
        0 <= j < args.len(),
        alcanca(args, 0, j),
        args[j] == "--log"@,
    ensures
        cli_desde(args, id, padrao, 0, estado_inicial()) == cli_desde(args.update(j, "-l"@), id, padrao, 0, estado_inicial()),
{
    lema_log_longo_curto(args, id, padrao, 0, j, estado_inicial());
}

proof fn lema_alcanca_ordem(args: Seq<Seq<char>>, i: int, j: int)
    requires
        alcanca(args, i, j),
    ensures
        i <= j,
    decreases j - i,
{
}

proof fn lema_alcanca_trans(args: Seq<Seq<char>>, i: int, j: int, k: int)
    requires
        alcanca(args, i, j),
        alcanca(args, j, k),
    ensures
        alcanca(args, i, k),
    decreases j - i,
{
    lema_alcanca_ordem(args, j, k);
    if i != j {
        let n = i + if toma_valor(args[i]) { 2int } else { 1int };
        lema_alcanca_trans(args, n, j, k);
    }
}

/// Sem outra opção de log adiante, o log aceito é o que já se tinha.
proof fn lema_log_sem_outro_adiante(
    args: Seq<Seq<char>>,
    id: Seq<(Seq<char>, CatalogoV)>,
    padrao: Seq<char>,
    i: int,
    est: EstadoCli,
)
    requires
        0 <= i,
        forall|k: int| #[trigger] alcanca(args, i, k) && k < args.len() ==> !eh_log(args[k]),
    ensures
        match cli_desde(args, id, padrao, i, est) {
            Ok(AcaoV::Validar(c)) => c.caminho_log == est.log,
            _ => true,
        },
    decreases args.len() + 1 - i,
{
    if i < args.len() {
        let a = args[i];
        assert(alcanca(args, i, i));
        let n = i + if toma_valor(a) { 2int } else { 1int };
        assert forall|k: int| #[trigger] alcanca(args, n, k) && k < args.len() implies !eh_log(args[k]) by {
            lema_alcanca_ordem(args, n, k);
            assert(alcanca(args, i, k));
        }
        if eh_ajuda(a) || a == "--idiomas"@ {
        } else if flag_catalogos(a) {
            lema_log_sem_outro_adiante(args, id, padrao, n, est);
        } else if eh_idioma(a) {
            if i + 1 < args.len() {
                let v = args[i + 1];
                lema_log_sem_outro_adiante(args, id, padrao, n, EstadoCli { pedido: Some(None), ..est });
                lema_log_sem_outro_adiante(args, id, padrao, n, EstadoCli { pedido: Some(Some(minusculas(v))), ..est });
            }
        } else {
            lema_log_sem_outro_adiante(args, id, padrao, n, EstadoCli { posicionais: est.posicionais.push(a), ..est });
        }
    }
}

proof fn lema_ultimo_log_vale(
    args: Seq<Seq<char>>,
    id: Seq<(Seq<char>, CatalogoV)>,
    padrao: Seq<char>,
    i: int,
    j: int,
    est: EstadoCli,
)
    requires
        0 <= i <= j,
        j + 1 < args.len(),
        alcanca(args, i, j),
        args[j] == "-l"@ || args[j] == "--log"@,
        forall|k: int| #[trigger] alcanca(args, j + 2, k) && k < args.len() ==> !eh_log(args[k]),
    ensures
        match cli_desde(args, id, padrao, i, est) {
            Ok(AcaoV::Validar(c)) => c.caminho_log == Some(args[j + 1]),
            _ => true,
        },
    decreases j - i,
{
    reveal_strlit("-l");
    reveal_strlit("--log");
    reveal_strlit("-h");
    reveal_strlit("--help");
    reveal_strlit("--idiomas");
    reveal_strlit("-c");
    reveal_strlit("--catalogos");
    if i == j {
        assert(eh_log(args[j]));
        assert(!eh_ajuda(args[j])) by {
            assert("--log"@.len() == 5 && "-l"@.len() == 2);
            assert("-h"@[1] != "-l"@[1]);
        }
        assert(args[j] != "--idiomas"@) by {
            assert("--idiomas"@.len() == 9);
            assert("--log"@.len() == 5 && "-l"@.len() == 2);
        }
        assert(!flag_catalogos(args[j])) by {
            assert("-c"@[1] != "-l"@[1]);
            assert("--catalogos"@.len() == 11);
        }
        lema_log_sem_outro_adiante(args, id, padrao, j + 2, EstadoCli { log: Some(args[j + 1]), ..est });
    } else {
        let a = args[i];
        let n = i + if toma_valor(a) { 2int } else { 1int };
        assert(alcanca(args, n, j));
        lema_alcanca_ordem(args, n, j);
        if eh_ajuda(a) || a == "--idiomas"@ {
        } else if flag_catalogos(a) {
            lema_ultimo_log_vale(args, id, padrao, n, j, est);
        } else if eh_log(a) {
            lema_ultimo_log_vale(args, id, padrao, n, j, EstadoCli { log: Some(args[i + 1]), ..est });
        } else if eh_idioma(a) {
            let v = args[i + 1];
            lema_ultimo_log_vale(args, id, padrao, n, j, EstadoCli { pedido: Some(None), ..est });
            lema_ultimo_log_vale(args, id, padrao, n, j, EstadoCli { pedido: Some(Some(minusculas(v))), ..est });
        } else {
            lema_ultimo_log_vale(args, id, padrao, n, j, EstadoCli { posicionais: est.posicionais.push(a), ..est });
        }
    }
}

/// A última opção de log (`-l` ou `--log`) que a varredura encontra como
/// opção, seguida de um valor, dá o caminho do log de toda configuração
/// de validação aceita.
pub proof fn lei_ultimo_log_da_o_caminho(args: Seq<Seq<char>>, id: Seq<(Seq<char>, CatalogoV)>, padrao: Seq<char>, j: int)
    requires
        0 <= j,
        j + 1 < args.len(),
        alcanca(args, 0, j),
        args[j] == "-l"@ || args[j] == "--log"@,
        forall|k: int| j < k < args.len() && #[trigger] alcanca(args, 0, k) ==> args[k] != "-l"@ && args[k] != "--log"@,
    ensures
        match cli_desde(args, id, padrao, 0, estado_inicial()) {
            Ok(AcaoV::Validar(c)) => c.caminho_log == Some(args[j + 1]),
            _ => true,
        },
{
    reveal_strlit("-l");
    reveal_strlit("--log");
    assert(toma_valor(args[j]));
    assert(alcanca(args, j + 2, j + 2));
    assert(alcanca(args, j, j + 2));
    assert forall|k: int| #[trigger] alcanca(args, j + 2, k) && k < args.len() implies !eh_log(args[k]) by {
        lema_alcanca_ordem(args, j + 2, k);
        lema_alcanca_trans(args, j, j + 2, k);
        lema_alcanca_trans(args, 0, j, k);
    }
    lema_ultimo_log_vale(args, id, padrao, 0, j, estado_inicial());
}

} // verus!
