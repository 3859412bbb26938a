//! The solver: a best-first search over (station, arrival line) states that
//! runs one micro-step per call, reports each step as an event, and can step
//! back through a bounded history of snapshots.

use crate::grafo_metro::{
    conexao_bem_formada, nome_da_estacao, nome_padrao, CorLinha, GrafoMetro, IdEstacao, Minutos, LIMITE_ESTACOES,
    LIMITE_TEMPO_MINUTOS, TEMPO_BALDEACAO_MINUTOS,
};
use crate::invariantes::itinerario_correto;
use crate::leis::{lei_itinerario_correto, lei_monotonia_do_passo, nao_regride};
use crate::modelo::{
    alcancavel, apos, avancar, avancar_n, busca_bem_formada, cadeia, chave_de_chegada, contar_trocas,
    custo_baldeacao, eh_proximo, eh_rodada, elo_utilizavel, evento_caminho_encontrado,
    eventos_do_motor, fecha_rodada, houve_baldeacao, indice_do_proximo, inicial, lema_indice_do_proximo,
    lema_numero_de_eventos, lema_proximo_unico, limite_de_elos, no_bem_formado, passo,
    passo_avaliar_vizinho, passo_finalizar, passo_inicializado, passo_selecionar,
    passo_verificar_explorado, passo_verificar_objetivo, reconstruir, registrar, resultado_do_evento,
    tem_prioridade, terminou, voltar, Busca, Chave, Evento, Itinerario, Motor, No, Predecessor, Problema,
    Resultado, CUSTO_MAXIMO_POR_TRECHO,
};
use crate::tabelas::{ConjuntoDeChaves, MapaDeChaves};
use crate::texto::{formatar_minutos, texto_de_minutos};
use std::sync::Arc;
use vstd::prelude::*;
use vstd::string::*;

verus! {

/// What a station looks like to someone who watches the search.
#[derive(Debug, Clone, Copy, PartialEq, Eq, Structural)]
pub enum StatusEstacao {
    Disponivel,
    /// Taken out of the frontier, about to be expanded.
    SelecionadaParaExpansao,
    /// Its connections are being evaluated.
    ExpandindoVizinhos,
    /// All its connections were evaluated.
    Explorada,
}

/// The states of the solver's state machine.
#[derive(Debug, Clone, Copy, PartialEq, Eq, Structural)]
pub enum EstadoAlgoritmo {
    Inicializado,
    SelecionandoNoDaFronteira,
    VerificandoObjetivo,
    VerificandoSeJaExplorado,
    AvaliandoVizinho { indice_vizinho: usize },
    FinalizandoExpansao,
    CaminhoEncontrado,
    SemCaminho,
}

/// A candidate of the frontier.
#[derive(Debug, Clone, PartialEq, Eq)]
pub struct EstadoNoFronteira {
    pub id_estacao: IdEstacao,
    pub linha_chegada: Option<CorLinha>,
    pub custo_f: Minutos,
    pub custo_g_viagem: Minutos,
    /// The stations passed on the way to this one, origin first.
    pub caminho: Vec<IdEstacao>,
}

/// The itinerary that a search ends with.
#[derive(Debug, Clone, PartialEq, Eq)]
pub struct InfoCaminho {
    /// The stations of the route with the line by which each was reached,
    /// origin first.
    pub estacoes_do_caminho: Vec<(IdEstacao, Option<CorLinha>)>,
    pub tempo_total_minutos: Minutos,
    pub baldeacoes: u32,
    /// Whether the back-links led all the way to the origin. Where they did
    /// not, `estacoes_do_caminho` holds the part of the route that they gave.
    pub cadeia_completa: bool,
}

/// What one call of `proximo_passo` comes back with.
#[derive(Debug, Clone, PartialEq, Eq)]
pub enum ResultadoPassoAEstrela {
    EmProgresso,
    CaminhoEncontrado(InfoCaminho),
    NenhumCaminhoPossivel,
    Erro(String),
}

/// What one step reports.
#[derive(Debug, Clone, PartialEq, Eq)]
pub enum EventoVisual {
    NoEscolhidoDaFronteira {
        id_estacao: IdEstacao,
        custo_f: Minutos,
        custo_g: Minutos,
        custo_h: Minutos,
        caminho_ate_aqui: Vec<IdEstacao>,
    },
    VerificandoSeEhObjetivo { id_estacao: IdEstacao, eh_objetivo: bool },
    NoJaExplorado { id_estacao: IdEstacao },
    InicioDaExpansaoDeNo { id_estacao: IdEstacao, numero_vizinhos: usize },
    AvaliandoVizinho {
        id_estacao_atual: IdEstacao,
        id_vizinho: IdEstacao,
        linha_conexao: CorLinha,
        tempo_conexao: Minutos,
        custo_baldeacao: Minutos,
        custo_g_novo: Minutos,
        custo_h: Minutos,
        custo_f_novo: Minutos,
    },
    VizinhoJaExplorado { id_vizinho: IdEstacao },
    VizinhoJaTemCaminhoMelhor { id_vizinho: IdEstacao, custo_g_existente: Minutos, custo_g_novo: Minutos },
    VizinhoAdicionadoNaFronteira {
        id_vizinho: IdEstacao,
        custo_f: Minutos,
        custo_g: Minutos,
        custo_h: Minutos,
        novo_caminho: Vec<IdEstacao>,
    },
    FimDaExpansaoDeNo { id_estacao: IdEstacao, vizinhos_adicionados: usize, tamanho_fronteira: usize },
    CaminhoEncontrado { info_caminho: InfoCaminho },
    NenhumCaminho,
    AlgoritmoInicializado { id_inicio: IdEstacao, id_objetivo: IdEstacao, custo_h_inicial: Minutos },
}

/// The lines that an analysis of one expansion is shown with.
#[derive(Debug, Clone, PartialEq, Eq)]
pub struct DetalhesAnalise {
    pub estacao_expandida: IdEstacao,
    pub vizinhos_analisados: Vec<String>,
    pub fronteira_atual: Vec<String>,
}

/// A sequence of station ids as mathematical integers.
pub open spec fn ids_como_inteiros(ids: Seq<IdEstacao>) -> Seq<int> {
    ids.map_values(|id: IdEstacao| id as int)
}

/// A route of the solver as a sequence of states.
pub open spec fn trajeto_como_chaves(trajeto: Seq<(IdEstacao, Option<CorLinha>)>) -> Seq<Chave> {
    trajeto.map_values(|par: (IdEstacao, Option<CorLinha>)| (par.0 as int, par.1))
}

impl View for EstadoNoFronteira {
    type V = No;

    open spec fn view(&self) -> No {
        No {
            id_estacao: self.id_estacao as int,
            linha_chegada: self.linha_chegada,
            custo_f: self.custo_f as int,
            custo_g: self.custo_g_viagem as int,
            caminho: ids_como_inteiros(self.caminho@),
        }
    }
}

impl View for InfoCaminho {
    type V = Itinerario;

    open spec fn view(&self) -> Itinerario {
        Itinerario {
            estacoes_do_caminho: trajeto_como_chaves(self.estacoes_do_caminho@),
            tempo_total: self.tempo_total_minutos as int,
            baldeacoes: self.baldeacoes as int,
            cadeia_completa: self.cadeia_completa,
        }
    }
}

impl View for ResultadoPassoAEstrela {
    type V = Resultado;

    open spec fn view(&self) -> Resultado {
        match *self {
            ResultadoPassoAEstrela::EmProgresso => Resultado::EmProgresso,
            ResultadoPassoAEstrela::CaminhoEncontrado(info) => Resultado::CaminhoEncontrado(info@),
            ResultadoPassoAEstrela::NenhumCaminhoPossivel => Resultado::NenhumCaminhoPossivel,
            ResultadoPassoAEstrela::Erro(mensagem) => Resultado::Erro(mensagem@),
        }
    }
}

impl View for EventoVisual {
    type V = Evento;

    open spec fn view(&self) -> Evento {
        match *self {
            EventoVisual::NoEscolhidoDaFronteira {
                id_estacao,
                custo_f,
                custo_g,
                custo_h,
                caminho_ate_aqui,
            } => Evento::NoEscolhidoDaFronteira {
                id_estacao: id_estacao as int,
                custo_f: custo_f as int,
                custo_g: custo_g as int,
                custo_h: custo_h as int,
                caminho_ate_aqui: ids_como_inteiros(caminho_ate_aqui@),
            },
            EventoVisual::VerificandoSeEhObjetivo {
                id_estacao,
                eh_objetivo,
            } => Evento::VerificandoSeEhObjetivo { id_estacao: id_estacao as int, eh_objetivo },
            EventoVisual::NoJaExplorado { id_estacao } => Evento::NoJaExplorado {
                id_estacao: id_estacao as int,
            },
            EventoVisual::InicioDaExpansaoDeNo {
                id_estacao,
                numero_vizinhos,
            } => Evento::InicioDaExpansaoDeNo {
                id_estacao: id_estacao as int,
                numero_vizinhos: numero_vizinhos as int,
            },
            EventoVisual::AvaliandoVizinho {
                id_estacao_atual,
                id_vizinho,
                linha_conexao,
                tempo_conexao,
                custo_baldeacao,
                custo_g_novo,
                custo_h,
                custo_f_novo,
            } => Evento::AvaliandoVizinho {
                id_estacao_atual: id_estacao_atual as int,
                id_vizinho: id_vizinho as int,
                linha_conexao,
                tempo_conexao: tempo_conexao as int,
                custo_baldeacao: custo_baldeacao as int,
                custo_g_novo: custo_g_novo as int,
                custo_h: custo_h as int,
                custo_f_novo: custo_f_novo as int,
            },
            EventoVisual::VizinhoJaExplorado { id_vizinho } => Evento::VizinhoJaExplorado {
                id_vizinho: id_vizinho as int,
            },
            EventoVisual::VizinhoJaTemCaminhoMelhor {
                id_vizinho,
                custo_g_existente,
                custo_g_novo,
            } => Evento::VizinhoJaTemCaminhoMelhor {
                id_vizinho: id_vizinho as int,
                custo_g_existente: custo_g_existente as int,
                custo_g_novo: custo_g_novo as int,
            },
            EventoVisual::VizinhoAdicionadoNaFronteira {
                id_vizinho,
                custo_f,
                custo_g,
                custo_h,
                novo_caminho,
            } => Evento::VizinhoAdicionadoNaFronteira {
                id_vizinho: id_vizinho as int,
                custo_f: custo_f as int,
                custo_g: custo_g as int,
                custo_h: custo_h as int,
                novo_caminho: ids_como_inteiros(novo_caminho@),
            },
            EventoVisual::FimDaExpansaoDeNo {
                id_estacao,
                vizinhos_adicionados,
                tamanho_fronteira,
            } => Evento::FimDaExpansaoDeNo {
                id_estacao: id_estacao as int,
                vizinhos_adicionados: vizinhos_adicionados as int,
                tamanho_fronteira: tamanho_fronteira as int,
            },
            EventoVisual::CaminhoEncontrado { info_caminho } => Evento::CaminhoEncontrado {
                info_caminho: info_caminho@,
            },
            EventoVisual::NenhumCaminho => Evento::NenhumCaminho,
            EventoVisual::AlgoritmoInicializado {
                id_inicio,
                id_objetivo,
                custo_h_inicial,
            } => Evento::AlgoritmoInicializado {
                id_inicio: id_inicio as int,
                id_objetivo: id_objetivo as int,
                custo_h_inicial: custo_h_inicial as int,
            },
        }
    }
}

// ---------------------------------------------------------------------------
// From the solver's values to the model
// ---------------------------------------------------------------------------
/// The problem that a solver with these parameters works on.
pub open spec fn problema_de(
    id_inicio: IdEstacao,
    linha_inicial: Option<CorLinha>,
    id_objetivo: IdEstacao,
) -> Problema {
    Problema { inicio: id_inicio as int, linha_inicial, objetivo: id_objetivo as int }
}

/// A frontier as a sequence of nodes of the model.
pub open spec fn fronteira_como_nos(fronteira: Seq<EstadoNoFronteira>) -> Seq<No> {
    fronteira.map_values(|no: EstadoNoFronteira| no@)
}

/// A table of best costs as a map of the model.
pub open spec fn custos_como_inteiros(custos: Map<Chave, Minutos>) -> Map<Chave, int> {
    custos.map_values(|custo: Minutos| custo as int)
}

/// A table of back-links as a map of the model.
pub open spec fn elos_como_inteiros(elos: Map<Chave, (IdEstacao, Option<CorLinha>, CorLinha)>) -> Map<
    Chave,
    Predecessor,
> {
    elos.map_values(|elo: (IdEstacao, Option<CorLinha>, CorLinha)| (elo.0 as int, elo.1, elo.2))
}

/// Whether the state machine is in the middle of an expansion.
pub open spec fn em_expansao(estado: EstadoAlgoritmo) -> bool {
    estado is AvaliandoVizinho || estado is FinalizandoExpansao
}

fn copiar_ids(ids: &Vec<IdEstacao>) -> (copia: Vec<IdEstacao>)
    ensures
        copia@ == ids@,
{
    let mut copia: Vec<IdEstacao> = Vec::new();
    let mut i: usize = 0;
    while i < ids.len()
        invariant
            i <= ids@.len(),
            copia@ == ids@.subrange(0, i as int),
        decreases ids@.len() - i,
    {
        copia.push(ids[i]);
        proof {
            assert(copia@ =~= ids@.subrange(0, i + 1));
        }
        i = i + 1;
    }
    proof {
        assert(copia@ =~= ids@);
    }
    copia
}

fn mesma_linha(a: Option<CorLinha>, b: Option<CorLinha>) -> (iguais: bool)
    ensures
        iguais == (a == b),
{
    match (a, b) {
        (None, None) => true,
        (Some(x), Some(y)) => x == y,
        _ => false,
    }
}

fn heuristica_ou_zero(grafo: &GrafoMetro, de_estacao: IdEstacao, para_estacao: IdEstacao) -> (h: Minutos)
    requires
        grafo.bem_formado(),
        de_estacao < grafo.numero_estacoes(),
        para_estacao < grafo.numero_estacoes(),
    ensures
        h == grafo.heuristica(de_estacao as int, para_estacao as int),
        h <= LIMITE_TEMPO_MINUTOS,
{
    match grafo.obter_tempo_heuristico_minutos(de_estacao, para_estacao) {
        Some(t) => t,
        None => 0,
    }
}

/// The estimate that a node carries: its f less its g.
pub open spec fn custo_h_do_no(no: EstadoNoFronteira) -> nat {
    if no.custo_f >= no.custo_g_viagem {
        (no.custo_f - no.custo_g_viagem) as nat
    } else {
        0
    }
}

/// A node in one line: its station and its costs in minutes.
pub open spec fn descricao_do_no(no: EstadoNoFronteira) -> Seq<char> {
    nome_padrao(no.id_estacao as nat) + " (f="@ + texto_de_minutos(no.custo_f as nat) + ", g="@
        + texto_de_minutos(no.custo_g_viagem as nat) + ", h="@ + texto_de_minutos(custo_h_do_no(no))
        + ")"@
}

/// The names of the stations of a path, with arrows between them.
pub open spec fn trajeto_em_texto(ids: Seq<IdEstacao>) -> Seq<char>
    decreases ids.len(),
{
    if ids.len() == 0 {
        Seq::empty()
    } else if ids.len() == 1 {
        nome_padrao(ids[0] as nat)
    } else {
        trajeto_em_texto(ids.drop_last()) + " -> "@ + nome_padrao(ids.last() as nat)
    }
}

/// A node with the path that led to it.
pub open spec fn descricao_completa_do_no(no: EstadoNoFronteira) -> Seq<char> {
    "Estado: "@ + descricao_do_no(no) + ", Caminho: "@ + trajeto_em_texto(no.caminho@)
}

impl EstadoNoFronteira {
    /// Describes the node in one line, such as `E3 (f=20.6, g=10.0, h=10.6)`.
    pub fn debug_print(&self) -> (texto: String)
        requires
            self.id_estacao < usize::MAX,
        ensures
            texto@ == descricao_do_no(*self),
    {
        let custo_h = if self.custo_f >= self.custo_g_viagem {
            self.custo_f - self.custo_g_viagem
        } else {
            0
        };
        let mut texto = nome_da_estacao(self.id_estacao);
        texto.append(" (f=");
        texto.append(formatar_minutos(self.custo_f).as_str());
        texto.append(", g=");
        texto.append(formatar_minutos(self.custo_g_viagem).as_str());
        texto.append(", h=");
        texto.append(formatar_minutos(custo_h).as_str());
        texto.append(")");
        texto
    }

    /// Describes the node and the path that led to it, such as
    /// `Estado: E3 (f=20.6, g=10.0, h=10.6), Caminho: E1 -> E2 -> E3`.
    pub fn debug_full(&self) -> (texto: String)
        requires
            self.id_estacao < usize::MAX,
            forall|i: int| 0 <= i < self.caminho@.len() ==> self.caminho@[i] < usize::MAX,
        ensures
            texto@ == descricao_completa_do_no(*self),
    {
        let mut trajeto = String::from_str("");
        proof {
            reveal_strlit("");
            assert(trajeto@ =~= trajeto_em_texto(self.caminho@.take(0)));
        }
        let mut i: usize = 0;
        while i < self.caminho.len()
            invariant
                i <= self.caminho@.len(),
                forall|k: int| 0 <= k < self.caminho@.len() ==> self.caminho@[k] < usize::MAX,
                trajeto@ == trajeto_em_texto(self.caminho@.take(i as int)),
            decreases self.caminho@.len() - i,
        {
            let ghost antes = self.caminho@.take(i as int);
            let ghost depois = self.caminho@.take(i + 1);
            proof {
                assert(depois.drop_last() =~= antes);
                assert(depois.last() == self.caminho@[i as int]);
            }
            if i > 0 {
                trajeto.append(" -> ");
            }
            trajeto.append(nome_da_estacao(self.caminho[i]).as_str());
            proof {
                if i == 0 {
                    assert(depois[0] == self.caminho@[0]);
                    assert(trajeto@ =~= nome_padrao(self.caminho@[0] as nat));
                }
            }
            i = i + 1;
        }
        proof {
            assert(self.caminho@.take(i as int) =~= self.caminho@);
        }
        let mut texto = String::from_str("Estado: ");
        texto.append(self.debug_print().as_str());
        texto.append(", Caminho: ");
        texto.append(trajeto.as_str());
        texto
    }

    /// Whether the frontier gives this node out before `outro`: lowest f
    /// first, then lowest g, then lowest station id.
    pub fn tem_prioridade_sobre(&self, outro: &EstadoNoFronteira) -> (antes: bool)
        ensures
            antes == tem_prioridade(self@, outro@),
    {
        self.custo_f < outro.custo_f || (self.custo_f == outro.custo_f && (self.custo_g_viagem
            < outro.custo_g_viagem || (self.custo_g_viagem == outro.custo_g_viagem
            && self.id_estacao < outro.id_estacao)))
    }

    /// A copy of the node.
    pub fn copiar(&self) -> (copia: EstadoNoFronteira)
        ensures
            copia@ == self@,
            copia.caminho@ == self.caminho@,
    {
        EstadoNoFronteira {
            id_estacao: self.id_estacao,
            linha_chegada: self.linha_chegada,
            custo_f: self.custo_f,
            custo_g_viagem: self.custo_g_viagem,
            caminho: copiar_ids(&self.caminho),
        }
    }
}

/// The position of the node that a non-empty frontier gives out next.
fn posicao_do_proximo(fronteira: &Vec<EstadoNoFronteira>) -> (i: usize)
    requires
        fronteira@.len() > 0,
    ensures
        i == indice_do_proximo(fronteira_como_nos(fronteira@)),
        i < fronteira@.len(),
{
    let ghost nos = fronteira_como_nos(fronteira@);
    let mut melhor: usize = 0;
    let mut j: usize = 1;
    while j < fronteira.len()
        invariant
            1 <= j <= fronteira@.len(),
            melhor < j,
            nos == fronteira_como_nos(fronteira@),
            forall|k: int| 0 <= k < j ==> !tem_prioridade(#[trigger] nos[k], nos[melhor as int]),
            forall|k: int| 0 <= k < melhor ==> tem_prioridade(nos[melhor as int], #[trigger] nos[k]),
        decreases fronteira@.len() - j,
    {
        if fronteira[j].tem_prioridade_sobre(&fronteira[melhor]) {
            melhor = j;
        }
        j = j + 1;
    }
    proof {
        assert(eh_proximo(nos, melhor as int));
        lema_indice_do_proximo(nos);
        lema_proximo_unico(nos, melhor as int, indice_do_proximo(nos));
    }
    melhor
}

// ---------------------------------------------------------------------------
// Path reconstruction
// ---------------------------------------------------------------------------
/// Whether every back-link of `elos` comes from a station of a graph of `n` stations.
pub open spec fn elos_dentro_do_grafo(elos: Map<Chave, (IdEstacao, Option<CorLinha>, CorLinha)>, n: int) -> bool {
    forall|chave: Chave| #![trigger elos.contains_key(chave)] elos.contains_key(chave) ==> elos[chave].0 < n
}

fn mudou_de_linha(anterior: Option<CorLinha>, atual: Option<CorLinha>) -> (mudou: bool)
    ensures
        mudou == houve_baldeacao(anterior, atual),
{
    match (anterior, atual) {
        (Some(a), Some(b)) => a != b,
        _ => false,
    }
}

/// Counts the changes of line along a route: the adjacent entries whose
/// arrival lines are both defined and differ.
pub fn contar_baldeacoes(trajeto: &Vec<(IdEstacao, Option<CorLinha>)>) -> (baldeacoes: u32)
    requires
        trajeto@.len() <= u32::MAX,
    ensures
        baldeacoes == contar_trocas(trajeto_como_chaves(trajeto@)),
{
    let ghost chaves = trajeto_como_chaves(trajeto@);
    let mut baldeacoes: u32 = 0;
    if trajeto.len() < 2 {
        return 0;
    }
    let mut j: usize = 1;
    proof {
        assert(chaves.subrange(0, 1).len() == 1);
    }
    while j < trajeto.len()
        invariant
            1 <= j <= trajeto@.len() <= u32::MAX,
            chaves == trajeto_como_chaves(trajeto@),
            baldeacoes == contar_trocas(chaves.subrange(0, j as int)),
            baldeacoes < j,
        decreases trajeto@.len() - j,
    {
        let ghost ate_aqui = chaves.subrange(0, j as int);
        let ghost com_mais_um = chaves.subrange(0, j + 1);
        proof {
            assert(com_mais_um.drop_last() =~= ate_aqui);
            assert(com_mais_um[com_mais_um.len() - 2] == chaves[j - 1]);
            assert(com_mais_um.last() == chaves[j as int]);
        }
        if mudou_de_linha(trajeto[j - 1].1, trajeto[j].1) {
            baldeacoes = baldeacoes + 1;
        }
        j = j + 1;
    }
    proof {
        assert(chaves.subrange(0, j as int) =~= chaves);
    }
    baldeacoes
}

/// Rebuilds the itinerary that ends in `no_final`: walks the back-links from
/// its state to the origin, turns the chain round, takes the cost of
/// `no_final` as the total time and counts the changes of line along the
/// chain. Where the chain breaks off before the origin, the itinerary holds
/// what the chain gave and says so in `cadeia_completa`.
pub fn reconstruir_caminho(
    predecessores: &MapaDeChaves<(IdEstacao, Option<CorLinha>, CorLinha)>,
    id_inicio: IdEstacao,
    linha_inicial: Option<CorLinha>,
    no_final: &EstadoNoFronteira,
) -> (info: InfoCaminho)
    requires
        predecessores.valido(),
        no_final.id_estacao < predecessores.numero_estacoes(),
        elos_dentro_do_grafo(predecessores@, predecessores.numero_estacoes()),
    ensures
        info@ == reconstruir(
            elos_como_inteiros(predecessores@),
            (id_inicio as int, linha_inicial),
            no_final@,
            limite_de_elos(predecessores.numero_estacoes()),
        ),
        info.baldeacoes == contar_trocas(trajeto_como_chaves(info.estacoes_do_caminho@)),
        info.tempo_total_minutos == no_final.custo_g_viagem,
{
    let n = predecessores.estacoes();
    proof {
        predecessores.lema_limites();
    }
    let ghost elos_m = elos_como_inteiros(predecessores@);
    let ghost origem: Chave = (id_inicio as int, linha_inicial);
    let ghost inteira = cadeia(elos_m, origem, no_final@.chave(), limite_de_elos(n as int));
    let mut elos: Vec<(IdEstacao, Option<CorLinha>)> = Vec::new();
    let mut id = no_final.id_estacao;
    let mut linha = no_final.linha_chegada;
    let mut restantes: usize = 6 * n;
    let mut terminado = false;
    proof {
        assert(trajeto_como_chaves(elos@) + cadeia(elos_m, origem, (id as int, linha), restantes as nat)
            =~= inteira);
    }
    while !terminado
        invariant
            predecessores.valido(),
            n == predecessores.numero_estacoes(),
            n <= LIMITE_ESTACOES,
            elos_dentro_do_grafo(predecessores@, n as int),
            elos_m == elos_como_inteiros(predecessores@),
            origem == (id_inicio as int, linha_inicial),
            elos@.len() + restantes <= 6 * n + 1,
            terminado ==> elos@.len() >= 1 && trajeto_como_chaves(elos@) == inteira,
            !terminado ==> id < n && elos@.len() + restantes == 6 * n && trajeto_como_chaves(elos@)
                + cadeia(elos_m, origem, (id as int, linha), restantes as nat) == inteira,
        decreases
                if terminado {
                    0
                } else {
                    restantes + 1
                },
    {
        let ghost chave: Chave = (id as int, linha);
        let ghost antes = trajeto_como_chaves(elos@);
        elos.push((id, linha));
        proof {
            assert(trajeto_como_chaves(elos@) =~= antes + seq![chave]);
        }
        let mut seguir: Option<(IdEstacao, Option<CorLinha>, CorLinha)> = None;
        let na_origem = id == id_inicio && mesma_linha(linha, linha_inicial);
        if !na_origem && restantes > 0 {
            match predecessores.obter(id, linha) {
                Some(elo) => {
                    if mesma_linha(linha, Some(elo.2)) {
                        seguir = Some(elo);
                    }
                },
                None => {},
            }
        }
        proof {
            assert(elos_m.contains_key(chave) == predecessores@.contains_key(chave));
            if predecessores@.contains_key(chave) {
                assert(elos_m[chave] == (
                    predecessores@[chave].0 as int,
                    predecessores@[chave].1,
                    predecessores@[chave].2,
                ));
            }
            assert(seguir is Some <==> !(chave == origem || restantes == 0 || !elo_utilizavel(
                elos_m,
                chave,
            )));
        }
        match seguir {
            Some(elo) => {
                proof {
                    assert(cadeia(elos_m, origem, chave, restantes as nat) =~= seq![chave] + cadeia(
                        elos_m,
                        origem,
                        (elo.0 as int, elo.1),
                        (restantes - 1) as nat,
                    ));
                    assert(antes + seq![chave] + cadeia(
                        elos_m,
                        origem,
                        (elo.0 as int, elo.1),
                        (restantes - 1) as nat,
                    ) =~= antes + cadeia(elos_m, origem, chave, restantes as nat));
                }
                id = elo.0;
                linha = elo.1;
                restantes = restantes - 1;
            },
            None => {
                proof {
                    assert(cadeia(elos_m, origem, chave, restantes as nat) =~= seq![chave]);
                }
                terminado = true;
            },
        }
    }
    let ultimo = elos[elos.len() - 1];
    let cadeia_completa = ultimo.0 == id_inicio && mesma_linha(ultimo.1, linha_inicial);
    let mut trajeto: Vec<(IdEstacao, Option<CorLinha>)> = Vec::new();
    let mut k: usize = elos.len();
    while k > 0
        invariant
            k <= elos@.len(),
            trajeto@.len() == elos@.len() - k,
            forall|j: int| 0 <= j < trajeto@.len() ==> trajeto@[j] == elos@[elos@.len() - 1 - j],
        decreases k,
    {
        k = k - 1;
        trajeto.push(elos[k]);
    }
    proof {
        assert(trajeto_como_chaves(trajeto@) =~= inteira.reverse());
        assert(inteira.last() == trajeto_como_chaves(elos@)[elos@.len() - 1]);
    }
    let baldeacoes = contar_baldeacoes(&trajeto);
    InfoCaminho {
        estacoes_do_caminho: trajeto,
        tempo_total_minutos: no_final.custo_g_viagem,
        baldeacoes,
        cadeia_completa,
    }
}

// ---------------------------------------------------------------------------
// The search state
// ---------------------------------------------------------------------------
/// Everything that a step of the search reads and changes. The solver works
/// on one of these and keeps copies of earlier ones as its history.
#[derive(Debug)]
pub struct SnapshotEstado {
    fronteira: Vec<EstadoNoFronteira>,
    explorados: ConjuntoDeChaves,
    custos_g_viagem_mapa: MapaDeChaves<Minutos>,
    predecessores_info: MapaDeChaves<(IdEstacao, Option<CorLinha>, CorLinha)>,
    status_estacoes: Vec<StatusEstacao>,
    estacao_sendo_explorada_no_momento: Option<IdEstacao>,
    estado_atual: EstadoAlgoritmo,
    no_atual: Option<EstadoNoFronteira>,
    vizinhos_adicionados_neste_passo: usize,
}

impl View for SnapshotEstado {
    type V = Busca;

    closed spec fn view(&self) -> Busca {
        Busca {
            fronteira: fronteira_como_nos(self.fronteira@),
            explorados: self.explorados@,
            custos_g: custos_como_inteiros(self.custos_g_viagem_mapa@),
            predecessores: elos_como_inteiros(self.predecessores_info@),
            status_estacoes: self.status_estacoes@,
            estacao_sendo_explorada: match self.estacao_sendo_explorada_no_momento {
                Some(id) => Some(id as int),
                None => None,
            },
            estado_atual: self.estado_atual,
            no_atual: match self.no_atual {
                Some(no) => Some(no@),
                None => None,
            },
            vizinhos_adicionados: self.vizinhos_adicionados_neste_passo as int,
        }
    }
}

impl SnapshotEstado {
    /// The representation invariant: the tables are those of the graph, the
    /// search is well formed, and no path is longer than the states explored
    /// so far allow.
    pub closed spec fn valido(&self, grafo: GrafoMetro, problema: Problema) -> bool {
        let n = grafo.numero_estacoes();
        &&& grafo.bem_formado()
        &&& problema.valido(grafo)
        &&& self.explorados.valido()
        &&& self.explorados.numero_estacoes() == n
        &&& self.custos_g_viagem_mapa.valido()
        &&& self.custos_g_viagem_mapa.numero_estacoes() == n
        &&& self.predecessores_info.valido()
        &&& self.predecessores_info.numero_estacoes() == n
        &&& busca_bem_formada(grafo, problema, self@)
        &&& forall|i: int|
            0 <= i < self.fronteira@.len() ==> (#[trigger] self.fronteira@[i]).caminho@.len()
                <= self.explorados.total() + 1
        &&& (self.no_atual matches Some(no) ==> no.caminho@.len() + if em_expansao(
            self.estado_atual,
        ) {
            1int
        } else {
            0int
        } <= self.explorados.total() + 1)
    }

    /// The search before its first step.
    fn inicial(
        grafo: &GrafoMetro,
        id_inicio: IdEstacao,
        linha_inicial: Option<CorLinha>,
        id_objetivo: IdEstacao,
    ) -> (estado: SnapshotEstado)
        requires
            grafo.bem_formado(),
            id_inicio < grafo.numero_estacoes(),
            id_objetivo < grafo.numero_estacoes(),
        ensures
            estado.valido(*grafo, problema_de(id_inicio, linha_inicial, id_objetivo)),
            estado@ == inicial(*grafo, problema_de(id_inicio, linha_inicial, id_objetivo)),
    {
        let n = grafo.estacoes.len();
        let ghost problema = problema_de(id_inicio, linha_inicial, id_objetivo);
        let custo_h_inicial = heuristica_ou_zero(grafo, id_inicio, id_objetivo);
        let mut caminho_inicial: Vec<IdEstacao> = Vec::new();
        caminho_inicial.push(id_inicio);
        let no_inicial = EstadoNoFronteira {
            id_estacao: id_inicio,
            linha_chegada: linha_inicial,
            custo_f: custo_h_inicial,
            custo_g_viagem: 0,
            caminho: caminho_inicial,
        };
        let mut fronteira: Vec<EstadoNoFronteira> = Vec::new();
        fronteira.push(no_inicial);
        let mut custos: MapaDeChaves<Minutos> = MapaDeChaves::novo(n);
        custos.inserir(id_inicio, linha_inicial, 0);
        let mut status_estacoes: Vec<StatusEstacao> = Vec::new();
        let mut i: usize = 0;
        while i < n
            invariant
                i <= n,
                status_estacoes@.len() == i,
                forall|k: int| 0 <= k < i ==> status_estacoes@[k] == StatusEstacao::Disponivel,
            decreases n - i,
        {
            status_estacoes.push(StatusEstacao::Disponivel);
            i = i + 1;
        }
        let estado = SnapshotEstado {
            fronteira,
            explorados: ConjuntoDeChaves::novo(n),
            custos_g_viagem_mapa: custos,
            predecessores_info: MapaDeChaves::novo(n),
            status_estacoes,
            estacao_sendo_explorada_no_momento: None,
            estado_atual: EstadoAlgoritmo::Inicializado,
            no_atual: None,
            vizinhos_adicionados_neste_passo: 0,
        };
        proof {
            let esperado = inicial(*grafo, problema);
            assert(estado@.fronteira =~= esperado.fronteira) by {
                assert(estado.fronteira@[0]@.caminho =~= seq![id_inicio as int]);
            }
            assert(estado@.custos_g =~= esperado.custos_g);
            assert(estado@.predecessores =~= esperado.predecessores);
            assert(estado@.status_estacoes =~= esperado.status_estacoes);
            assert(estado@ == esperado);
        }
        estado
    }

    fn passo_inicializado(
        &mut self,
        grafo: &GrafoMetro,
        id_inicio: IdEstacao,
        linha_inicial: Option<CorLinha>,
        id_objetivo: IdEstacao,
    ) -> (evento: EventoVisual)
        requires
            old(self).valido(*grafo, problema_de(id_inicio, linha_inicial, id_objetivo)),
            old(self)@.estado_atual == EstadoAlgoritmo::Inicializado,
        ensures
            final(self).valido(*grafo, problema_de(id_inicio, linha_inicial, id_objetivo)),
            (final(self)@, evento@) == passo_inicializado(
                *grafo,
                problema_de(id_inicio, linha_inicial, id_objetivo),
                old(self)@,
            ),
    {
        let custo_h_inicial = heuristica_ou_zero(grafo, id_inicio, id_objetivo);
        self.estado_atual = EstadoAlgoritmo::SelecionandoNoDaFronteira;
        proof {
            assert(self@.fronteira == old(self)@.fronteira);
            assert(self@.predecessores == old(self)@.predecessores);
        }
        EventoVisual::AlgoritmoInicializado { id_inicio, id_objetivo, custo_h_inicial }
    }

    fn passo_selecionar(&mut self, Ghost(grafo): Ghost<GrafoMetro>, Ghost(problema): Ghost<Problema>) -> (evento:
        EventoVisual)
        requires
            old(self).valido(grafo, problema),
            old(self)@.estado_atual == EstadoAlgoritmo::SelecionandoNoDaFronteira,
        ensures
            final(self).valido(grafo, problema),
            (final(self)@, evento@) == passo_selecionar(old(self)@),
    {
        if self.fronteira.len() == 0 {
            self.estado_atual = EstadoAlgoritmo::SemCaminho;
            proof {
                assert(self@.fronteira == old(self)@.fronteira);
                assert(self@.predecessores == old(self)@.predecessores);
            }
            return EventoVisual::NenhumCaminho;
        }
        let ghost nos = fronteira_como_nos(self.fronteira@);
        let i = posicao_do_proximo(&self.fronteira);
        proof {
            assert(nos == old(self)@.fronteira);
            assert(no_bem_formado(grafo, problema, nos[i as int]));
            assert(nos[i as int] == self.fronteira@[i as int]@);
        }
        let no = self.fronteira.remove(i);
        let evento = EventoVisual::NoEscolhidoDaFronteira {
            id_estacao: no.id_estacao,
            custo_f: no.custo_f,
            custo_g: no.custo_g_viagem,
            custo_h: no.custo_f - no.custo_g_viagem,
            caminho_ate_aqui: copiar_ids(&no.caminho),
        };
        self.no_atual = Some(no);
        self.estado_atual = EstadoAlgoritmo::VerificandoObjetivo;
        proof {
            assert(self@.fronteira =~= nos.remove(i as int));
            assert(self@.predecessores == old(self)@.predecessores);
            assert forall|k: int| 0 <= k < self@.fronteira.len() implies no_bem_formado(
                grafo,
                problema,
                #[trigger] self@.fronteira[k],
            ) by {
                if k < i {
                    assert(self@.fronteira[k] == nos[k]);
                } else {
                    assert(self@.fronteira[k] == nos[k + 1]);
                }
            }
            assert forall|k: int| 0 <= k < self.fronteira@.len() implies (
            #[trigger] self.fronteira@[k]).caminho@.len() <= self.explorados.total() + 1 by {
                if k < i {
                    assert(self.fronteira@[k] == old(self).fronteira@[k]);
                } else {
                    assert(self.fronteira@[k] == old(self).fronteira@[k + 1]);
                }
            }
            assert(self@ == passo_selecionar(old(self)@).0);
        }
        evento
    }

    fn passo_verificar_objetivo(
        &mut self,
        Ghost(grafo): Ghost<GrafoMetro>,
        Ghost(problema): Ghost<Problema>,
        id_objetivo: IdEstacao,
    ) -> (evento: EventoVisual)
        requires
            old(self).valido(grafo, problema),
            old(self)@.estado_atual == EstadoAlgoritmo::VerificandoObjetivo,
            problema.objetivo == id_objetivo,
        ensures
            final(self).valido(grafo, problema),
            (final(self)@, evento@) == passo_verificar_objetivo(problema, old(self)@),
    {
        let id_estacao = self.no_atual.as_ref().unwrap().id_estacao;
        let eh_objetivo = id_estacao == id_objetivo;
        if eh_objetivo {
            self.estado_atual = EstadoAlgoritmo::CaminhoEncontrado;
        } else {
            self.estado_atual = EstadoAlgoritmo::VerificandoSeJaExplorado;
        }
        proof {
            assert(self@.fronteira == old(self)@.fronteira);
            assert(self@.predecessores == old(self)@.predecessores);
        }
        EventoVisual::VerificandoSeEhObjetivo { id_estacao, eh_objetivo }
    }

    fn passo_verificar_explorado(&mut self, grafo: &GrafoMetro, Ghost(problema): Ghost<Problema>) -> (evento:
        EventoVisual)
        requires
            old(self).valido(*grafo, problema),
            old(self)@.estado_atual == EstadoAlgoritmo::VerificandoSeJaExplorado,
        ensures
            final(self).valido(*grafo, problema),
            (final(self)@, evento@) == passo_verificar_explorado(*grafo, old(self)@),
    {
        let no = self.no_atual.as_ref().unwrap();
        let id_estacao = no.id_estacao;
        let linha = no.linha_chegada;
        if self.explorados.contem(id_estacao, linha) {
            self.estado_atual = EstadoAlgoritmo::SelecionandoNoDaFronteira;
            proof {
                assert(self@.fronteira == old(self)@.fronteira);
                assert(self@.predecessores == old(self)@.predecessores);
            }
            return EventoVisual::NoJaExplorado { id_estacao };
        }
        self.explorados.inserir(id_estacao, linha);
        self.status_estacoes.set(id_estacao, StatusEstacao::SelecionadaParaExpansao);
        self.estacao_sendo_explorada_no_momento = Some(id_estacao);
        self.vizinhos_adicionados_neste_passo = 0;
        let numero_vizinhos = grafo.lista_adjacencia[id_estacao].len();
        if numero_vizinhos == 0 {
            self.estado_atual = EstadoAlgoritmo::FinalizandoExpansao;
        } else {
            self.estado_atual = EstadoAlgoritmo::AvaliandoVizinho { indice_vizinho: 0 };
        }
        proof {
            assert(self@.fronteira == old(self)@.fronteira);
            assert(self@.predecessores == old(self)@.predecessores);
            assert(self@.custos_g == old(self)@.custos_g);
            assert(self.fronteira@ == old(self).fronteira@);
            assert(self@ == passo_verificar_explorado(*grafo, old(self)@).0);
        }
        EventoVisual::InicioDaExpansaoDeNo { id_estacao, numero_vizinhos }
    }

    fn passo_avaliar_vizinho(
        &mut self,
        grafo: &GrafoMetro,
        Ghost(problema): Ghost<Problema>,
        id_objetivo: IdEstacao,
        indice: usize,
    ) -> (evento: EventoVisual)
        requires
            old(self).valido(*grafo, problema),
            old(self)@.estado_atual == (EstadoAlgoritmo::AvaliandoVizinho { indice_vizinho: indice }),
            problema.objetivo == id_objetivo,
        ensures
            final(self).valido(*grafo, problema),
            (final(self)@, evento@) == passo_avaliar_vizinho(*grafo, problema, old(self)@, indice as int),
    {
        let ghost antes = self@;
        let ghost esperado = passo_avaliar_vizinho(*grafo, problema, antes, indice as int);
        let no = self.no_atual.as_ref().unwrap();
        let id_atual = no.id_estacao;
        let linha_atual = no.linha_chegada;
        let custo_g_atual = no.custo_g_viagem;
        let ghost caminho_atual = no.caminho@;
        proof {
            assert(no_bem_formado(*grafo, problema, antes.no_atual->0));
            assert(indice < grafo.conexoes_de(id_atual as int).len());
        }
        let conexoes = &grafo.lista_adjacencia[id_atual];
        let conexao = conexoes[indice];
        let id_vizinho = conexao.para_estacao;
        let linha_vizinho = Some(conexao.cor_linha);
        let ghost chave_vizinho = chave_de_chegada(conexao);
        proof {
            self.explorados.lema_limites();
            assert(conexao == grafo.conexoes_de(id_atual as int)[indice as int]);
            assert(conexao_bem_formada(conexao, grafo.numero_estacoes()));
            assert(no_bem_formado(*grafo, problema, antes.no_atual->0));
        }
        let numero_vizinhos = conexoes.len();
        if indice + 1 < numero_vizinhos {
            self.estado_atual = EstadoAlgoritmo::AvaliandoVizinho { indice_vizinho: indice + 1 };
        } else {
            self.estado_atual = EstadoAlgoritmo::FinalizandoExpansao;
        }
        self.status_estacoes.set(id_atual, StatusEstacao::ExpandindoVizinhos);
        if self.explorados.contem(id_vizinho, linha_vizinho) {
            proof {
                assert(self@.fronteira == antes.fronteira);
                assert(self@.predecessores == antes.predecessores);
                assert(self@.custos_g == antes.custos_g);
                assert(self.fronteira@ == old(self).fronteira@);
                assert(self@ == esperado.0);
            }
            return EventoVisual::VizinhoJaExplorado { id_vizinho };
        }
        let baldeacao: Minutos = match linha_atual {
            Some(l) => if l != conexao.cor_linha {
                TEMPO_BALDEACAO_MINUTOS
            } else {
                0
            },
            None => 0,
        };
        proof {
            assert(baldeacao == custo_baldeacao(linha_atual, conexao.cor_linha));
            assert(conexao.tempo_minutos + baldeacao <= CUSTO_MAXIMO_POR_TRECHO);
            assert(caminho_atual.len() <= self.explorados.total());
            assert(custo_g_atual <= (caminho_atual.len() - 1) * CUSTO_MAXIMO_POR_TRECHO);
            assert(custo_g_atual + conexao.tempo_minutos + baldeacao <= caminho_atual.len()
                * CUSTO_MAXIMO_POR_TRECHO) by (nonlinear_arith)
                requires
                    custo_g_atual <= (caminho_atual.len() - 1) * CUSTO_MAXIMO_POR_TRECHO,
                    conexao.tempo_minutos + baldeacao <= CUSTO_MAXIMO_POR_TRECHO,
            ;
            assert(caminho_atual.len() * CUSTO_MAXIMO_POR_TRECHO <= 6_000_000_024_000_000_000)
                by (nonlinear_arith)
                requires
                    caminho_atual.len() <= 6_000_000,
                    CUSTO_MAXIMO_POR_TRECHO == 1_000_000_004_000,
            ;
        }
        let custo_g_novo: Minutos = custo_g_atual + conexao.tempo_minutos + baldeacao;
        let custo_h = heuristica_ou_zero(grafo, id_vizinho, id_objetivo);
        let custo_f_novo: Minutos = custo_g_novo + custo_h;
        let evento = EventoVisual::AvaliandoVizinho {
            id_estacao_atual: id_atual,
            id_vizinho,
            linha_conexao: conexao.cor_linha,
            tempo_conexao: conexao.tempo_minutos,
            custo_baldeacao: baldeacao,
            custo_g_novo,
            custo_h,
            custo_f_novo,
        };
        let melhora = match self.custos_g_viagem_mapa.obter(id_vizinho, linha_vizinho) {
            Some(custo_g_existente) => custo_g_novo < custo_g_existente,
            None => true,
        };
        proof {
            assert(antes.custos_g.contains_key(chave_vizinho) == self.custos_g_viagem_mapa@.contains_key(
                chave_vizinho,
            ));
            if antes.custos_g.contains_key(chave_vizinho) {
                assert(antes.custos_g[chave_vizinho] == self.custos_g_viagem_mapa@[chave_vizinho] as int);
            }
            assert(melhora == !(antes.custos_g.contains_key(chave_vizinho)
                && antes.custos_g[chave_vizinho] <= custo_g_novo));
        }
        if melhora {
            let ghost custos_antes = self.custos_g_viagem_mapa@;
            let ghost elos_antes = self.predecessores_info@;
            self.custos_g_viagem_mapa.inserir(id_vizinho, linha_vizinho, custo_g_novo);
            self.predecessores_info.inserir(id_vizinho, linha_vizinho, (id_atual, linha_atual, conexao.cor_linha));
            let mut novo_caminho = copiar_ids(&self.no_atual.as_ref().unwrap().caminho);
            novo_caminho.push(id_vizinho);
            let novo_no = EstadoNoFronteira {
                id_estacao: id_vizinho,
                linha_chegada: linha_vizinho,
                custo_f: custo_f_novo,
                custo_g_viagem: custo_g_novo,
                caminho: novo_caminho,
            };
            let ghost novo_no_m = novo_no@;
            self.fronteira.push(novo_no);
            self.vizinhos_adicionados_neste_passo = self.vizinhos_adicionados_neste_passo + 1;
            proof {
                assert(novo_no_m.caminho =~= antes.no_atual->0.caminho.push(id_vizinho as int));
                assert(self@.fronteira =~= antes.fronteira.push(novo_no_m));
                assert(self@.custos_g =~= antes.custos_g.insert(chave_vizinho, custo_g_novo as int));
                assert(self@.predecessores =~= antes.predecessores.insert(
                    chave_vizinho,
                    (id_atual as int, linha_atual, conexao.cor_linha),
                ));
                assert(self@ == esperado.0);
                assert(no_bem_formado(*grafo, problema, novo_no_m));
                assert forall|k: int| 0 <= k < self@.fronteira.len() implies no_bem_formado(
                    *grafo,
                    problema,
                    #[trigger] self@.fronteira[k],
                ) by {
                    if k < antes.fronteira.len() {
                        assert(self@.fronteira[k] == antes.fronteira[k]);
                    }
                }
                assert forall|k: int| 0 <= k < self.fronteira@.len() implies (
                #[trigger] self.fronteira@[k]).caminho@.len() <= self.explorados.total() + 1 by {
                    if k < old(self).fronteira@.len() {
                        assert(self.fronteira@[k] == old(self).fronteira@[k]);
                    }
                }
            }
        } else {
            proof {
                assert(self@.fronteira == antes.fronteira);
                assert(self@.predecessores == antes.predecessores);
                assert(self@.custos_g == antes.custos_g);
                assert(self.fronteira@ == old(self).fronteira@);
                assert(self@ == esperado.0);
            }
        }
        evento
    }

    fn passo_finalizar(&mut self, Ghost(grafo): Ghost<GrafoMetro>, Ghost(problema): Ghost<Problema>) -> (evento:
        EventoVisual)
        requires
            old(self).valido(grafo, problema),
            old(self)@.estado_atual == EstadoAlgoritmo::FinalizandoExpansao,
        ensures
            final(self).valido(grafo, problema),
            (final(self)@, evento@) == passo_finalizar(old(self)@),
    {
        let id_estacao = self.no_atual.as_ref().unwrap().id_estacao;
        self.status_estacoes.set(id_estacao, StatusEstacao::Explorada);
        self.estado_atual = EstadoAlgoritmo::SelecionandoNoDaFronteira;
        proof {
            assert(self@.fronteira == old(self)@.fronteira);
            assert(self@.predecessores == old(self)@.predecessores);
            assert(self@.custos_g == old(self)@.custos_g);
            assert(self.fronteira@ == old(self).fronteira@);
            assert(self@ == passo_finalizar(old(self)@).0);
        }
        EventoVisual::FimDaExpansaoDeNo {
            id_estacao,
            vizinhos_adicionados: self.vizinhos_adicionados_neste_passo,
            tamanho_fronteira: self.fronteira.len(),
        }
    }

    fn evento_caminho_encontrado(
        &self,
        Ghost(grafo): Ghost<GrafoMetro>,
        Ghost(problema): Ghost<Problema>,
        id_inicio: IdEstacao,
        linha_inicial: Option<CorLinha>,
    ) -> (evento: EventoVisual)
        requires
            self.valido(grafo, problema),
            self@.estado_atual == EstadoAlgoritmo::CaminhoEncontrado,
            problema.inicio == id_inicio,
            problema.linha_inicial == linha_inicial,
        ensures
            evento@ == evento_caminho_encontrado(grafo, problema, self@),
    {
        proof {
            assert(no_bem_formado(grafo, problema, self@.no_atual->0));
            assert forall|chave: Chave| #![trigger self.predecessores_info@.contains_key(chave)]
                self.predecessores_info@.contains_key(chave) implies self.predecessores_info@[chave].0
                < grafo.numero_estacoes() by {
                assert(self@.predecessores.contains_key(chave));
                assert(self@.predecessores[chave].0 == self.predecessores_info@[chave].0);
            }
        }
        let info_caminho = reconstruir_caminho(
            &self.predecessores_info,
            id_inicio,
            linha_inicial,
            self.no_atual.as_ref().unwrap(),
        );
        EventoVisual::CaminhoEncontrado { info_caminho }
    }

    /// One step of the search.
    fn passo(
        &mut self,
        grafo: &GrafoMetro,
        id_inicio: IdEstacao,
        linha_inicial: Option<CorLinha>,
        id_objetivo: IdEstacao,
    ) -> (evento: EventoVisual)
        requires
            old(self).valido(*grafo, problema_de(id_inicio, linha_inicial, id_objetivo)),
        ensures
            final(self).valido(*grafo, problema_de(id_inicio, linha_inicial, id_objetivo)),
            (final(self)@, evento@) == passo(
                *grafo,
                problema_de(id_inicio, linha_inicial, id_objetivo),
                old(self)@,
            ),
    {
        let ghost problema = problema_de(id_inicio, linha_inicial, id_objetivo);
        match self.estado_atual {
            EstadoAlgoritmo::Inicializado => self.passo_inicializado(
                grafo,
                id_inicio,
                linha_inicial,
                id_objetivo,
            ),
            EstadoAlgoritmo::SelecionandoNoDaFronteira => self.passo_selecionar(
                Ghost(*grafo),
                Ghost(problema),
            ),
            EstadoAlgoritmo::VerificandoObjetivo => self.passo_verificar_objetivo(
                Ghost(*grafo),
                Ghost(problema),
                id_objetivo,
            ),
            EstadoAlgoritmo::VerificandoSeJaExplorado => self.passo_verificar_explorado(
                grafo,
                Ghost(problema),
            ),
            EstadoAlgoritmo::AvaliandoVizinho { indice_vizinho } => self.passo_avaliar_vizinho(
                grafo,
                Ghost(problema),
                id_objetivo,
                indice_vizinho,
            ),
            EstadoAlgoritmo::FinalizandoExpansao => self.passo_finalizar(Ghost(*grafo), Ghost(problema)),
            EstadoAlgoritmo::CaminhoEncontrado => self.evento_caminho_encontrado(
                Ghost(*grafo),
                Ghost(problema),
                id_inicio,
                linha_inicial,
            ),
            EstadoAlgoritmo::SemCaminho => EventoVisual::NenhumCaminho,
        }
    }

    /// A copy of the search, for the history.
    fn copiar(&self, Ghost(grafo): Ghost<GrafoMetro>, Ghost(problema): Ghost<Problema>) -> (copia:
        SnapshotEstado)
        requires
            self.valido(grafo, problema),
        ensures
            copia.valido(grafo, problema),
            copia@ == self@,
    {
        let mut fronteira: Vec<EstadoNoFronteira> = Vec::new();
        let mut i: usize = 0;
        while i < self.fronteira.len()
            invariant
                i <= self.fronteira@.len(),
                fronteira@.len() == i,
                forall|k: int|
                    0 <= k < i ==> (#[trigger] fronteira@[k])@ == self.fronteira@[k]@
                        && fronteira@[k].caminho@ == self.fronteira@[k].caminho@,
            decreases self.fronteira@.len() - i,
        {
            fronteira.push(self.fronteira[i].copiar());
            i = i + 1;
        }
        let mut status_estacoes: Vec<StatusEstacao> = Vec::new();
        let mut j: usize = 0;
        while j < self.status_estacoes.len()
            invariant
                j <= self.status_estacoes@.len(),
                status_estacoes@ == self.status_estacoes@.subrange(0, j as int),
            decreases self.status_estacoes@.len() - j,
        {
            status_estacoes.push(self.status_estacoes[j]);
            proof {
                assert(status_estacoes@ =~= self.status_estacoes@.subrange(0, j + 1));
            }
            j = j + 1;
        }
        let no_atual = match &self.no_atual {
            Some(no) => Some(no.copiar()),
            None => None,
        };
        let copia = SnapshotEstado {
            fronteira,
            explorados: self.explorados.copiar(),
            custos_g_viagem_mapa: self.custos_g_viagem_mapa.copiar(),
            predecessores_info: self.predecessores_info.copiar(),
            status_estacoes,
            estacao_sendo_explorada_no_momento: self.estacao_sendo_explorada_no_momento,
            estado_atual: self.estado_atual,
            no_atual,
            vizinhos_adicionados_neste_passo: self.vizinhos_adicionados_neste_passo,
        };
        proof {
            assert(copia.status_estacoes@ =~= self.status_estacoes@);
            assert(copia@.fronteira =~= self@.fronteira);
            assert(copia@ == self@);
        }
        copia
    }
}

// ---------------------------------------------------------------------------
// The solver
// ---------------------------------------------------------------------------
/// How far the state machine is from the end of a round, in kinds of step.
spec fn fase(estado: EstadoAlgoritmo) -> nat {
    match estado {
        EstadoAlgoritmo::Inicializado => 5,
        EstadoAlgoritmo::SelecionandoNoDaFronteira => 4,
        EstadoAlgoritmo::VerificandoObjetivo => 3,
        EstadoAlgoritmo::VerificandoSeJaExplorado => 2,
        EstadoAlgoritmo::AvaliandoVizinho { .. } => 1,
        _ => 0,
    }
}

/// The connections of the node at hand that are still to be evaluated.
spec fn restante(grafo: GrafoMetro, b: Busca) -> nat {
    match b.estado_atual {
        EstadoAlgoritmo::AvaliandoVizinho { indice_vizinho } => (grafo.conexoes_de(
            b.no_atual->0.id_estacao,
        ).len() - indice_vizinho) as nat,
        _ => 0,
    }
}

/// Number of snapshots that the history of a new solver keeps.
pub const MAX_HISTORICO: usize = 50;

/// A history of snapshots as a sequence of searches of the model.
pub open spec fn historico_como_buscas(historico: Seq<SnapshotEstado>) -> Seq<Busca> {
    historico.map_values(|estado: SnapshotEstado| estado@)
}

/// The step-by-step solver. It shares the graph, owns the search, and keeps
/// the snapshots that let it step back.
#[derive(Debug)]
pub struct SolucionadorAEstrela {
    grafo: Arc<GrafoMetro>,
    id_inicio: IdEstacao,
    linha_de_partida_busca: Option<CorLinha>,
    id_objetivo: IdEstacao,
    busca: SnapshotEstado,
    historico_estados: Vec<SnapshotEstado>,
    max_historico: usize,
}

impl View for SolucionadorAEstrela {
    type V = Motor;

    closed spec fn view(&self) -> Motor {
        Motor {
            busca: self.busca@,
            historico: historico_como_buscas(self.historico_estados@),
            max_historico: self.max_historico as int,
        }
    }
}

impl SolucionadorAEstrela {
    /// The graph that the solver searches.
    pub closed spec fn grafo(&self) -> GrafoMetro {
        *self.grafo
    }

    /// The problem that the solver works on.
    pub closed spec fn problema(&self) -> Problema {
        problema_de(self.id_inicio, self.linha_de_partida_busca, self.id_objetivo)
    }

    /// The solver's invariant. `novo` establishes it and every operation keeps it.
    pub closed spec fn valido(&self) -> bool {
        &&& self.busca.valido(*self.grafo, self.problema())
        &&& alcancavel(*self.grafo, self.problema(), self.busca@)
        &&& self.historico_estados@.len() <= self.max_historico
        &&& forall|i: int|
            0 <= i < self.historico_estados@.len() ==> (#[trigger] self.historico_estados@[i]).valido(
                *self.grafo,
                self.problema(),
            )
        &&& forall|i: int|
            0 <= i < self.historico_estados@.len() ==> alcancavel(
                *self.grafo,
                self.problema(),
                (#[trigger] self.historico_estados@[i])@,
            )
    }

    /// What the invariant says in terms of the model: the graph is well
    /// formed, start and goal are stations of it, the search and every
    /// snapshot were reached from the initial search and are well formed, and
    /// the history is within its bound.
    pub proof fn lema_valido(&self)
        requires
            self.valido(),
        ensures
            self.grafo().bem_formado(),
            self.problema().valido(self.grafo()),
            busca_bem_formada(self.grafo(), self.problema(), self@.busca),
            alcancavel(self.grafo(), self.problema(), self@.busca),
            self@.historico.len() <= self@.max_historico,
            forall|i: int|
                0 <= i < self@.historico.len() ==> alcancavel(
                    self.grafo(),
                    self.problema(),
                    #[trigger] self@.historico[i],
                ),
            self@.busca.no_atual matches Some(no) ==> no.caminho.len() <= limite_de_elos(
                self.grafo().numero_estacoes(),
            ) + 1,
    {
        self.busca.explorados.lema_limites();
        assert forall|i: int| 0 <= i < self@.historico.len() implies alcancavel(
            self.grafo(),
            self.problema(),
            #[trigger] self@.historico[i],
        ) by {
            assert(self@.historico[i] == self.historico_estados@[i]@);
        }
    }

    /// A solver for the route from `id_inicio_param`, reached by
    /// `linha_inicial_opcional`, to `id_objetivo_param`. Its frontier holds
    /// the origin alone, and its history is empty.
    pub fn novo(
        grafo_compartilhado: Arc<GrafoMetro>,
        id_inicio_param: IdEstacao,
        linha_inicial_opcional: Option<CorLinha>,
        id_objetivo_param: IdEstacao,
    ) -> (solucionador: SolucionadorAEstrela)
        requires
            grafo_compartilhado.bem_formado(),
            id_inicio_param < grafo_compartilhado.numero_estacoes(),
            id_objetivo_param < grafo_compartilhado.numero_estacoes(),
        ensures
            solucionador.valido(),
            solucionador.grafo() == *grafo_compartilhado,
            solucionador.problema() == problema_de(
                id_inicio_param,
                linha_inicial_opcional,
                id_objetivo_param,
            ),
            solucionador@ == (Motor {
                busca: inicial(
                    *grafo_compartilhado,
                    problema_de(id_inicio_param, linha_inicial_opcional, id_objetivo_param),
                ),
                historico: Seq::empty(),
                max_historico: MAX_HISTORICO as int,
            }),
    {
        let busca = SnapshotEstado::inicial(
            &grafo_compartilhado,
            id_inicio_param,
            linha_inicial_opcional,
            id_objetivo_param,
        );
        let solucionador = SolucionadorAEstrela {
            grafo: grafo_compartilhado,
            id_inicio: id_inicio_param,
            linha_de_partida_busca: linha_inicial_opcional,
            id_objetivo: id_objetivo_param,
            busca,
            historico_estados: Vec::new(),
            max_historico: MAX_HISTORICO,
        };
        proof {
            let g = solucionador.grafo();
            let p = solucionador.problema();
            assert(solucionador@.busca == apos(g, p, inicial(g, p), 0));
            assert(solucionador@.historico =~= Seq::<Busca>::empty());
        }
        solucionador
    }

    /// Whether the search has ended: the goal was found, or the frontier ran empty.
    pub fn esta_finalizado(&self) -> (finalizado: bool)
        ensures
            finalizado == terminou(self@.busca),
    {
        match self.busca.estado_atual {
            EstadoAlgoritmo::CaminhoEncontrado => true,
            EstadoAlgoritmo::SemCaminho => true,
            _ => false,
        }
    }

    /// Whether a step would still do something.
    pub fn pode_continuar(&self) -> (continua: bool)
        ensures
            continua == !terminou(self@.busca),
    {
        !self.esta_finalizado()
    }

    /// Whether there is a snapshot to step back to.
    pub fn pode_voltar_passo(&self) -> (pode: bool)
        ensures
            pode == (self@.historico.len() > 0),
    {
        self.historico_estados.len() > 0
    }

    /// Number of snapshots in the history.
    pub fn numero_passos_historico(&self) -> (n: usize)
        ensures
            n == self@.historico.len(),
    {
        self.historico_estados.len()
    }

    /// The state of the state machine.
    pub fn estado_atual(&self) -> (estado: EstadoAlgoritmo)
        ensures
            estado == self@.busca.estado_atual,
    {
        self.busca.estado_atual
    }

    /// The station whose expansion was begun last.
    pub fn estacao_sendo_explorada_no_momento(&self) -> (estacao: Option<IdEstacao>)
        ensures
            match estacao {
                Some(id) => self@.busca.estacao_sendo_explorada == Some(id as int),
                None => self@.busca.estacao_sendo_explorada is None,
            },
    {
        self.busca.estacao_sendo_explorada_no_momento
    }

    /// The frontier, in the order in which its nodes entered.
    pub fn fronteira(&self) -> (fronteira: &Vec<EstadoNoFronteira>)
        ensures
            fronteira_como_nos(fronteira@) == self@.busca.fronteira,
    {
        &self.busca.fronteira
    }

    /// Whether the state (`id_estacao`, `linha`) was explored.
    pub fn foi_explorado(&self, id_estacao: IdEstacao, linha: Option<CorLinha>) -> (explorado: bool)
        requires
            self.valido(),
        ensures
            explorado == self@.busca.explorados.contains((id_estacao as int, linha)),
    {
        proof {
            self.busca.explorados.lema_limites();
        }
        if id_estacao < self.busca.explorados.estacoes() {
            self.busca.explorados.contem(id_estacao, linha)
        } else {
            false
        }
    }

    /// What station `id_estacao` looks like now. A station outside the graph
    /// is `Disponivel`.
    pub fn obter_status_estacao(&self, id_estacao: IdEstacao) -> (status: StatusEstacao)
        ensures
            status == if id_estacao < self@.busca.status_estacoes.len() {
                self@.busca.status_estacoes[id_estacao as int]
            } else {
                StatusEstacao::Disponivel
            },
    {
        if id_estacao < self.busca.status_estacoes.len() {
            self.busca.status_estacoes[id_estacao]
        } else {
            StatusEstacao::Disponivel
        }
    }

    /// Puts a copy of the search on the history, and drops the oldest
    /// snapshot where the history is over its bound.
    fn salvar_estado_no_historico(&mut self)
        requires
            old(self).valido(),
        ensures
            final(self).valido(),
            final(self).grafo() == old(self).grafo(),
            final(self).problema() == old(self).problema(),
            final(self)@ == (Motor {
                historico: registrar(old(self)@.historico, old(self)@.busca, old(self)@.max_historico),
                ..old(self)@
            }),
    {
        let ghost antes = self.historico_estados@;
        let copia = self.busca.copiar(Ghost(self.grafo()), Ghost(self.problema()));
        self.historico_estados.push(copia);
        proof {
            assert(historico_como_buscas(self.historico_estados@) =~= old(self)@.historico.push(
                old(self)@.busca,
            ));
        }
        if self.historico_estados.len() > self.max_historico {
            let ghost cheio = self.historico_estados@;
            self.historico_estados.remove(0);
            proof {
                assert(self.historico_estados@ =~= cheio.drop_first());
                assert(historico_como_buscas(self.historico_estados@) =~= historico_como_buscas(
                    cheio,
                ).drop_first());
                assert forall|i: int| 0 <= i < self.historico_estados@.len() implies (
                #[trigger] self.historico_estados@[i]).valido(*self.grafo, self.problema())
                    && alcancavel(
                    *self.grafo,
                    self.problema(),
                    self.historico_estados@[i]@,
                ) by {
                    assert(self.historico_estados@[i] == cheio[i + 1]);
                }
            }
        }
    }

    /// Performs one step of the search and reports it. A search that has not
    /// ended is first put on the history; one that has ended stays as it is
    /// and reports its end again.
    pub fn proximo_evento(&mut self) -> (evento: EventoVisual)
        requires
            old(self).valido(),
        ensures
            final(self).valido(),
            final(self).grafo() == old(self).grafo(),
            final(self).problema() == old(self).problema(),
            (final(self)@, evento@) == avancar(old(self).grafo(), old(self).problema(), old(self)@),
            nao_regride(old(self)@.busca, final(self)@.busca),
            evento@ matches Evento::CaminhoEncontrado { info_caminho } ==> info_caminho.tempo_total
                == old(self)@.busca.no_atual->0.custo_g && itinerario_correto(
                old(self).grafo(),
                old(self).problema(),
                info_caminho,
            ),
    {
        proof {
            lei_monotonia_do_passo(self.grafo(), self.problema(), self@.busca);
            if self@.busca.estado_atual is CaminhoEncontrado {
                lei_itinerario_correto(*self);
            }
        }
        if !self.esta_finalizado() {
            self.salvar_estado_no_historico();
        }
        let ghost g = self.grafo();
        let ghost p = self.problema();
        let ghost b = self.busca@;
        let evento = self.busca.passo(
            &self.grafo,
            self.id_inicio,
            self.linha_de_partida_busca,
            self.id_objetivo,
        );
        proof {
            let n = choose|n: nat| b == #[trigger] apos(g, p, inicial(g, p), n);
            assert(self.busca@ == apos(g, p, inicial(g, p), n + 1));
        }
        evento
    }

    /// Performs the steps of one round and says where the search stands: it
    /// steps until the search ends or the node taken out of the frontier has
    /// been dealt with, that is, passed over as explored or fully expanded.
    pub fn proximo_passo(&mut self) -> (resultado: ResultadoPassoAEstrela)
        requires
            old(self).valido(),
        ensures
            final(self).valido(),
            final(self).grafo() == old(self).grafo(),
            final(self).problema() == old(self).problema(),
            exists|k: nat|
                {
                    &&& #[trigger] eh_rodada(old(self).grafo(), old(self).problema(), old(self)@, k)
                    &&& final(self)@ == avancar_n(old(self).grafo(), old(self).problema(), old(self)@, k)
                    &&& resultado@ == resultado_do_evento(
                        eventos_do_motor(old(self).grafo(), old(self).problema(), old(self)@, k).last(),
                    )
                },
            resultado@ matches Resultado::CaminhoEncontrado(info_caminho)
                ==> itinerario_correto(
                old(self).grafo(),
                old(self).problema(),
                info_caminho,
            ),
    {
        let ghost g = self.grafo();
        let ghost p = self.problema();
        let ghost inicio = self@;
        let ghost mut k: nat = 0;
        loop
            invariant
                self.valido(),
                self.grafo() == g,
                self.problema() == p,
                g == old(self).grafo(),
                p == old(self).problema(),
                inicio == old(self)@,
                self@ == avancar_n(g, p, inicio, k),
                eventos_do_motor(g, p, inicio, k).len() == k,
                forall|j: int| 0 <= j < k ==> !fecha_rodada(#[trigger] eventos_do_motor(g, p, inicio, k)[j]),
            decreases fase(self@.busca.estado_atual), restante(g, self@.busca),
        {
            let ghost antes = self@;
            proof {
                self.lema_valido();
                g.lema_numero_de_conexoes(antes.busca.no_atual->0.id_estacao);
            }
            let evento = self.proximo_evento();
            proof {
                let anteriores = eventos_do_motor(g, p, inicio, k);
                let todos = eventos_do_motor(g, p, inicio, k + 1);
                lema_numero_de_eventos(g, p, inicio, k);
                assert(todos == anteriores.push(evento@));
                assert forall|j: int| 0 <= j < k implies todos[j] == anteriores[j] by {}
                k = k + 1;
            }
            match evento {
                EventoVisual::CaminhoEncontrado { info_caminho } => {
                    proof {
                        assert(eh_rodada(g, p, inicio, k));
                    }
                    return ResultadoPassoAEstrela::CaminhoEncontrado(info_caminho);
                },
                EventoVisual::NenhumCaminho => {
                    proof {
                        assert(eh_rodada(g, p, inicio, k));
                    }
                    return ResultadoPassoAEstrela::NenhumCaminhoPossivel;
                },
                EventoVisual::NoJaExplorado { .. } => {
                    proof {
                        assert(eh_rodada(g, p, inicio, k));
                    }
                    return ResultadoPassoAEstrela::EmProgresso;
                },
                EventoVisual::FimDaExpansaoDeNo { .. } => {
                    proof {
                        assert(eh_rodada(g, p, inicio, k));
                    }
                    return ResultadoPassoAEstrela::EmProgresso;
                },
                _ => {},
            }
        }
    }

    /// Steps back: the newest snapshot becomes the search again. Returns
    /// whether there was a snapshot.
    pub fn passo_anterior(&mut self) -> (voltou: bool)
        requires
            old(self).valido(),
        ensures
            final(self).valido(),
            final(self).grafo() == old(self).grafo(),
            final(self).problema() == old(self).problema(),
            (final(self)@, voltou) == voltar(old(self)@),
    {
        let ghost antes = self.historico_estados@;
        match self.historico_estados.pop() {
            Some(snapshot) => {
                self.busca = snapshot;
                proof {
                    assert(snapshot == antes[antes.len() - 1]);
                    assert(historico_como_buscas(self.historico_estados@) =~= old(
                        self,
                    )@.historico.drop_last());
                    assert(old(self)@.historico.last() == snapshot@);
                    assert forall|i: int| 0 <= i < self.historico_estados@.len() implies (
                    #[trigger] self.historico_estados@[i]).valido(*self.grafo, self.problema())
                        && alcancavel(
                        *self.grafo,
                        self.problema(),
                        self.historico_estados@[i]@,
                    ) by {
                        assert(self.historico_estados@[i] == antes[i]);
                    }
                }
                true
            },
            None => false,
        }
    }

    /// Starts the search over: the initial search for the same start and
    /// goal, and an empty history.
    pub fn reiniciar(&mut self)
        requires
            old(self).valido(),
        ensures
            final(self).valido(),
            final(self).grafo() == old(self).grafo(),
            final(self).problema() == old(self).problema(),
            final(self)@ == (Motor {
                busca: inicial(old(self).grafo(), old(self).problema()),
                historico: Seq::empty(),
                max_historico: old(self)@.max_historico,
            }),
    {
        proof {
            assert(busca_bem_formada(*self.grafo, self.problema(), self.busca@));
        }
        self.busca = SnapshotEstado::inicial(
            &self.grafo,
            self.id_inicio,
            self.linha_de_partida_busca,
            self.id_objetivo,
        );
        self.historico_estados.clear();
        proof {
            let g = *self.grafo;
            let p = self.problema();
            assert(self.busca@ == apos(g, p, inicial(g, p), 0));
            assert(historico_como_buscas(self.historico_estados@) =~= Seq::<Busca>::empty());
        }
    }
}

} // verus!
