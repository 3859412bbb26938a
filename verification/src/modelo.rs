//! The search as mathematics: the state of a best-first search over
//! (station, arrival line) keys, and the function that one step computes.
//!
//! Everything here is specification. The solver in `algoritmo_a_estrela`
//! refines it: each of its operations is stated as the function of this module
//! that it computes on the solver's view.

use crate::algoritmo_a_estrela::{EstadoAlgoritmo, StatusEstacao};
use crate::grafo_metro::{Conexao, CorLinha, GrafoMetro, LIMITE_TEMPO_MINUTOS, TEMPO_BALDEACAO_MINUTOS};
use vstd::prelude::*;

verus! {

/// A state of the search: a station, and the line by which it was reached
/// (`None` at the origin, where no line was taken yet).
pub type Chave = (int, Option<CorLinha>);

/// A back-link: the station that a key was reached from, the line by which
/// that station had been reached, and the line taken from there.
pub type Predecessor = (int, Option<CorLinha>, CorLinha);

/// Most that one connection can add to the cost of a path: its travel time
/// and a change of line.
pub const CUSTO_MAXIMO_POR_TRECHO: u64 = LIMITE_TEMPO_MINUTOS + TEMPO_BALDEACAO_MINUTOS;

/// What is searched for.
pub struct Problema {
    pub inicio: int,
    pub linha_inicial: Option<CorLinha>,
    pub objetivo: int,
}

/// A candidate in the frontier.
pub struct No {
    pub id_estacao: int,
    pub linha_chegada: Option<CorLinha>,
    pub custo_f: int,
    pub custo_g: int,
    pub caminho: Seq<int>,
}

/// The itinerary that a search ends with.
pub struct Itinerario {
    pub estacoes_do_caminho: Seq<Chave>,
    pub tempo_total: int,
    pub baldeacoes: int,
    pub cadeia_completa: bool,
}

/// What one step reports.
pub enum Evento {
    NoEscolhidoDaFronteira { id_estacao: int, custo_f: int, custo_g: int, custo_h: int, caminho_ate_aqui: Seq<int> },
    VerificandoSeEhObjetivo { id_estacao: int, eh_objetivo: bool },
    NoJaExplorado { id_estacao: int },
    InicioDaExpansaoDeNo { id_estacao: int, numero_vizinhos: int },
    AvaliandoVizinho {
        id_estacao_atual: int,
        id_vizinho: int,
        linha_conexao: CorLinha,
        tempo_conexao: int,
        custo_baldeacao: int,
        custo_g_novo: int,
        custo_h: int,
        custo_f_novo: int,
    },
    VizinhoJaExplorado { id_vizinho: int },
    VizinhoJaTemCaminhoMelhor { id_vizinho: int, custo_g_existente: int, custo_g_novo: int },
    VizinhoAdicionadoNaFronteira { id_vizinho: int, custo_f: int, custo_g: int, custo_h: int, novo_caminho: Seq<int> },
    FimDaExpansaoDeNo { id_estacao: int, vizinhos_adicionados: int, tamanho_fronteira: int },
    CaminhoEncontrado { info_caminho: Itinerario },
    NenhumCaminho,
    AlgoritmoInicializado { id_inicio: int, id_objetivo: int, custo_h_inicial: int },
}

/// The working set of one search: what a step reads and changes, and what a
/// snapshot keeps.
pub struct Busca {
    pub fronteira: Seq<No>,
    pub explorados: Set<Chave>,
    pub custos_g: Map<Chave, int>,
    pub predecessores: Map<Chave, Predecessor>,
    pub status_estacoes: Seq<StatusEstacao>,
    pub estacao_sendo_explorada: Option<int>,
    pub estado_atual: EstadoAlgoritmo,
    pub no_atual: Option<No>,
    pub vizinhos_adicionados: int,
}

/// A search together with its bounded history of snapshots, oldest first.
pub struct Motor {
    pub busca: Busca,
    pub historico: Seq<Busca>,
    pub max_historico: int,
}

impl No {
    /// The state that the node stands for.
    pub open spec fn chave(self) -> Chave {
        (self.id_estacao, self.linha_chegada)
    }
}

impl Problema {
    /// The state that the search starts from.
    pub open spec fn origem(self) -> Chave {
        (self.inicio, self.linha_inicial)
    }

    /// Whether start and goal are stations of `grafo`.
    pub open spec fn valido(self, grafo: GrafoMetro) -> bool {
        0 <= self.inicio < grafo.numero_estacoes() && 0 <= self.objetivo < grafo.numero_estacoes()
    }
}

/// The time that taking a connection of line `linha_conexao` costs on top of
/// its travel time, for a traveller who arrived by `linha_atual`.
pub open spec fn custo_baldeacao(linha_atual: Option<CorLinha>, linha_conexao: CorLinha) -> int {
    match linha_atual {
        Some(l) => if l != linha_conexao {
            TEMPO_BALDEACAO_MINUTOS as int
        } else {
            0
        },
        None => 0,
    }
}

/// The state that following `conexao` leads to.
pub open spec fn chave_de_chegada(conexao: Conexao) -> Chave {
    (conexao.para_estacao as int, Some(conexao.cor_linha))
}

// ---------------------------------------------------------------------------
// The frontier's order
// ---------------------------------------------------------------------------
/// Whether the frontier gives `a` out before `b`: lowest f first, then lowest
/// g, then lowest station id.
pub open spec fn tem_prioridade(a: No, b: No) -> bool {
    a.custo_f < b.custo_f || (a.custo_f == b.custo_f && (a.custo_g < b.custo_g || (a.custo_g
        == b.custo_g && a.id_estacao < b.id_estacao)))
}

/// Whether position `i` holds the node that the frontier gives out next: no
/// node has priority over it, and it has priority over every node before it.
/// Among nodes equal in f, g and station, the one that entered first leaves
/// first.
pub open spec fn eh_proximo(fronteira: Seq<No>, i: int) -> bool {
    &&& 0 <= i < fronteira.len()
    &&& forall|j: int| 0 <= j < fronteira.len() ==> !tem_prioridade(#[trigger] fronteira[j], fronteira[i])
    &&& forall|j: int| 0 <= j < i ==> tem_prioridade(fronteira[i], #[trigger] fronteira[j])
}

/// The position of the node that a non-empty frontier gives out next.
pub open spec fn indice_do_proximo(fronteira: Seq<No>) -> int
    decreases fronteira.len(),
{
    if fronteira.len() <= 1 {
        0
    } else {
        let j = indice_do_proximo(fronteira.drop_last());
        if tem_prioridade(fronteira.last(), fronteira[j]) {
            fronteira.len() - 1
        } else {
            j
        }
    }
}

/// `indice_do_proximo` is the position that `eh_proximo` describes.
pub proof fn lema_indice_do_proximo(fronteira: Seq<No>)
    requires
        fronteira.len() > 0,
    ensures
        eh_proximo(fronteira, indice_do_proximo(fronteira)),
    decreases fronteira.len(),
{
    if fronteira.len() > 1 {
        let antes = fronteira.drop_last();
        lema_indice_do_proximo(antes);
        let j = indice_do_proximo(antes);
        let i = indice_do_proximo(fronteira);
        assert(fronteira[j] == antes[j]);
        assert forall|k: int| 0 <= k < fronteira.len() implies !tem_prioridade(
            #[trigger] fronteira[k],
            fronteira[i],
        ) by {
            if k < antes.len() {
                assert(fronteira[k] == antes[k]);
                assert(!tem_prioridade(antes[k], antes[j]));
            }
        }
        assert forall|k: int| 0 <= k < i implies tem_prioridade(fronteira[i], #[trigger] fronteira[k]) by {
            assert(fronteira[k] == antes[k]);
            assert(!tem_prioridade(antes[k], antes[j]));
            if k < j {
                assert(tem_prioridade(antes[j], antes[k]));
            }
        }
    }
}

/// Only one position is the next.
pub proof fn lema_proximo_unico(fronteira: Seq<No>, i: int, j: int)
    requires
        eh_proximo(fronteira, i),
        eh_proximo(fronteira, j),
    ensures
        i == j,
{
    if i < j {
        assert(tem_prioridade(fronteira[j], fronteira[i]));
        assert(!tem_prioridade(fronteira[j], fronteira[i]));
    } else if j < i {
        assert(tem_prioridade(fronteira[i], fronteira[j]));
        assert(!tem_prioridade(fronteira[i], fronteira[j]));
    }
}

// ---------------------------------------------------------------------------
// Path reconstruction
// ---------------------------------------------------------------------------
/// Whether the back-link of `chave` can be followed: there is one, and the
/// line it says was taken is the line by which `chave` was reached.
pub open spec fn elo_utilizavel(predecessores: Map<Chave, Predecessor>, chave: Chave) -> bool {
    predecessores.contains_key(chave) && chave.1 == Some(predecessores[chave].2)
}

/// The chain of back-links from `chave` toward `origem`, `chave` first. It
/// ends at `origem`, where a back-link cannot be followed, or after `passos`
/// links.
pub open spec fn cadeia(
    predecessores: Map<Chave, Predecessor>,
    origem: Chave,
    chave: Chave,
    passos: nat,
) -> Seq<Chave>
    decreases passos,
{
    if chave == origem || passos == 0 || !elo_utilizavel(predecessores, chave) {
        seq![chave]
    } else {
        let p = predecessores[chave];
        seq![chave] + cadeia(predecessores, origem, (p.0, p.1), (passos - 1) as nat)
    }
}

/// Whether a traveller who arrived by `anterior` and goes on by `atual` changes lines.
pub open spec fn houve_baldeacao(anterior: Option<CorLinha>, atual: Option<CorLinha>) -> bool {
    anterior is Some && atual is Some && anterior != atual
}

/// The number of changes of line along a path: the adjacent entries whose
/// arrival lines are both defined and differ.
pub open spec fn contar_trocas(caminho: Seq<Chave>) -> int
    decreases caminho.len(),
{
    if caminho.len() < 2 {
        0
    } else {
        contar_trocas(caminho.drop_last()) + if houve_baldeacao(
            caminho[caminho.len() - 2].1,
            caminho.last().1,
        ) {
            1int
        } else {
            0int
        }
    }
}

/// Longest chain of back-links that a graph of `n` stations needs: one link
/// for each state.
pub open spec fn limite_de_elos(n: int) -> nat {
    (6 * n) as nat
}

/// The itinerary that ends in `no_final`: the chain of back-links, origin
/// first; the cost of `no_final` as total time; the changes of line counted
/// along the chain; and whether the chain reaches the origin.
pub open spec fn reconstruir(
    predecessores: Map<Chave, Predecessor>,
    origem: Chave,
    no_final: No,
    passos: nat,
) -> Itinerario {
    let elos = cadeia(predecessores, origem, no_final.chave(), passos);
    let caminho = elos.reverse();
    Itinerario {
        estacoes_do_caminho: caminho,
        tempo_total: no_final.custo_g,
        baldeacoes: contar_trocas(caminho),
        cadeia_completa: elos.last() == origem,
    }
}

// ---------------------------------------------------------------------------
// One step
// ---------------------------------------------------------------------------
/// The search before its first step.
pub open spec fn inicial(grafo: GrafoMetro, problema: Problema) -> Busca {
    Busca {
        fronteira: seq![
            No {
                id_estacao: problema.inicio,
                linha_chegada: problema.linha_inicial,
                custo_f: grafo.heuristica(problema.inicio, problema.objetivo),
                custo_g: 0,
                caminho: seq![problema.inicio],
            },
        ],
        explorados: Set::empty(),
        custos_g: Map::empty().insert(problema.origem(), 0int),
        predecessores: Map::empty(),
        status_estacoes: Seq::new(grafo.numero_estacoes() as nat, |i: int| StatusEstacao::Disponivel),
        estacao_sendo_explorada: None,
        estado_atual: EstadoAlgoritmo::Inicializado,
        no_atual: None,
        vizinhos_adicionados: 0,
    }
}

/// Whether the search has ended.
pub open spec fn terminou(b: Busca) -> bool {
    b.estado_atual is CaminhoEncontrado || b.estado_atual is SemCaminho
}

/// The first step: announces the search.
pub open spec fn passo_inicializado(grafo: GrafoMetro, problema: Problema, b: Busca) -> (Busca, Evento) {
    (
        Busca { estado_atual: EstadoAlgoritmo::SelecionandoNoDaFronteira, ..b },
        Evento::AlgoritmoInicializado {
            id_inicio: problema.inicio,
            id_objetivo: problema.objetivo,
            custo_h_inicial: grafo.heuristica(problema.inicio, problema.objetivo),
        },
    )
}

/// Takes the next node out of the frontier, or ends the search where the
/// frontier is empty.
pub open spec fn passo_selecionar(b: Busca) -> (Busca, Evento) {
    if b.fronteira.len() == 0 {
        (Busca { estado_atual: EstadoAlgoritmo::SemCaminho, ..b }, Evento::NenhumCaminho)
    } else {
        let i = indice_do_proximo(b.fronteira);
        let no = b.fronteira[i];
        (
            Busca {
                fronteira: b.fronteira.remove(i),
                no_atual: Some(no),
                estado_atual: EstadoAlgoritmo::VerificandoObjetivo,
                ..b
            },
            Evento::NoEscolhidoDaFronteira {
                id_estacao: no.id_estacao,
                custo_f: no.custo_f,
                custo_g: no.custo_g,
                custo_h: no.custo_f - no.custo_g,
                caminho_ate_aqui: no.caminho,
            },
        )
    }
}

/// Tests the node taken out against the goal. A node at the goal ends the
/// search, whether or not its state was explored before.
pub open spec fn passo_verificar_objetivo(problema: Problema, b: Busca) -> (Busca, Evento) {
    let no = b.no_atual->0;
    let eh_objetivo = no.id_estacao == problema.objetivo;
    (
        Busca {
            estado_atual: if eh_objetivo {
                EstadoAlgoritmo::CaminhoEncontrado
            } else {
                EstadoAlgoritmo::VerificandoSeJaExplorado
            },
            ..b
        },
        Evento::VerificandoSeEhObjetivo { id_estacao: no.id_estacao, eh_objetivo },
    )
}

/// Drops the node taken out where its state was explored before; otherwise
/// marks the state explored and begins to expand it.
pub open spec fn passo_verificar_explorado(grafo: GrafoMetro, b: Busca) -> (Busca, Evento) {
    let no = b.no_atual->0;
    if b.explorados.contains(no.chave()) {
        (
            Busca { estado_atual: EstadoAlgoritmo::SelecionandoNoDaFronteira, ..b },
            Evento::NoJaExplorado { id_estacao: no.id_estacao },
        )
    } else {
        let numero_vizinhos = grafo.conexoes_de(no.id_estacao).len();
        (
            Busca {
                explorados: b.explorados.insert(no.chave()),
                status_estacoes: b.status_estacoes.update(
                    no.id_estacao,
                    StatusEstacao::SelecionadaParaExpansao,
                ),
                estacao_sendo_explorada: Some(no.id_estacao),
                vizinhos_adicionados: 0,
                estado_atual: if numero_vizinhos == 0 {
                    EstadoAlgoritmo::FinalizandoExpansao
                } else {
                    EstadoAlgoritmo::AvaliandoVizinho { indice_vizinho: 0 }
                },
                ..b
            },
            Evento::InicioDaExpansaoDeNo {
                id_estacao: no.id_estacao,
                numero_vizinhos: numero_vizinhos as int,
            },
        )
    }
}

/// The state that follows the evaluation of connection `indice` out of a
/// station with `numero_vizinhos` connections.
pub open spec fn apos_vizinho(indice: int, numero_vizinhos: int) -> EstadoAlgoritmo {
    if indice + 1 < numero_vizinhos {
        EstadoAlgoritmo::AvaliandoVizinho { indice_vizinho: (indice + 1) as usize }
    } else {
        EstadoAlgoritmo::FinalizandoExpansao
    }
}

/// Evaluates connection `indice` of the node being expanded. A connection
/// into an explored state is passed over. Otherwise its cost is computed, and
/// where that cost improves on the best known for the state it leads to, the
/// state enters the frontier with a back-link to the node being expanded.
pub open spec fn passo_avaliar_vizinho(grafo: GrafoMetro, problema: Problema, b: Busca, indice: int) -> (
    Busca,
    Evento,
) {
    let no = b.no_atual->0;
    let conexoes = grafo.conexoes_de(no.id_estacao);
    let conexao = conexoes[indice];
    let id_vizinho = conexao.para_estacao as int;
    let chave_vizinho = chave_de_chegada(conexao);
    let status = b.status_estacoes.update(no.id_estacao, StatusEstacao::ExpandindoVizinhos);
    let proximo_estado = apos_vizinho(indice, conexoes.len() as int);
    if b.explorados.contains(chave_vizinho) {
        (
            Busca { status_estacoes: status, estado_atual: proximo_estado, ..b },
            Evento::VizinhoJaExplorado { id_vizinho },
        )
    } else {
        let baldeacao = custo_baldeacao(no.linha_chegada, conexao.cor_linha);
        let custo_g_novo = no.custo_g + conexao.tempo_minutos + baldeacao;
        let custo_h = grafo.heuristica(id_vizinho, problema.objetivo);
        let custo_f_novo = custo_g_novo + custo_h;
        let evento = Evento::AvaliandoVizinho {
            id_estacao_atual: no.id_estacao,
            id_vizinho,
            linha_conexao: conexao.cor_linha,
            tempo_conexao: conexao.tempo_minutos as int,
            custo_baldeacao: baldeacao,
            custo_g_novo,
            custo_h,
            custo_f_novo,
        };
        if b.custos_g.contains_key(chave_vizinho) && b.custos_g[chave_vizinho] <= custo_g_novo {
            (Busca { status_estacoes: status, estado_atual: proximo_estado, ..b }, evento)
        } else {
            (
                Busca {
                    fronteira: b.fronteira.push(
                        No {
                            id_estacao: id_vizinho,
                            linha_chegada: Some(conexao.cor_linha),
                            custo_f: custo_f_novo,
                            custo_g: custo_g_novo,
                            caminho: no.caminho.push(id_vizinho),
                        },
                    ),
                    custos_g: b.custos_g.insert(chave_vizinho, custo_g_novo),
                    predecessores: b.predecessores.insert(
                        chave_vizinho,
                        (no.id_estacao, no.linha_chegada, conexao.cor_linha),
                    ),
                    status_estacoes: status,
                    vizinhos_adicionados: b.vizinhos_adicionados + 1,
                    estado_atual: proximo_estado,
                    ..b
                },
                evento,
            )
        }
    }
}

/// Closes the expansion of the node at hand.
pub open spec fn passo_finalizar(b: Busca) -> (Busca, Evento) {
    let no = b.no_atual->0;
    (
        Busca {
            status_estacoes: b.status_estacoes.update(no.id_estacao, StatusEstacao::Explorada),
            estado_atual: EstadoAlgoritmo::SelecionandoNoDaFronteira,
            ..b
        },
        Evento::FimDaExpansaoDeNo {
            id_estacao: no.id_estacao,
            vizinhos_adicionados: b.vizinhos_adicionados,
            tamanho_fronteira: b.fronteira.len() as int,
        },
    )
}

/// The event that a search that found its goal reports, at every step.
pub open spec fn evento_caminho_encontrado(grafo: GrafoMetro, problema: Problema, b: Busca) -> Evento {
    Evento::CaminhoEncontrado {
        info_caminho: reconstruir(
            b.predecessores,
            problema.origem(),
            b.no_atual->0,
            limite_de_elos(grafo.numero_estacoes()),
        ),
    }
}

/// One step of the search: the state that follows `b`, and the event that
/// the step reports. A search that has ended stays as it is and reports its
/// end again.
pub open spec fn passo(grafo: GrafoMetro, problema: Problema, b: Busca) -> (Busca, Evento) {
    match b.estado_atual {
        EstadoAlgoritmo::Inicializado => passo_inicializado(grafo, problema, b),
        EstadoAlgoritmo::SelecionandoNoDaFronteira => passo_selecionar(b),
        EstadoAlgoritmo::VerificandoObjetivo => passo_verificar_objetivo(problema, b),
        EstadoAlgoritmo::VerificandoSeJaExplorado => passo_verificar_explorado(grafo, b),
        EstadoAlgoritmo::AvaliandoVizinho { indice_vizinho } => passo_avaliar_vizinho(
            grafo,
            problema,
            b,
            indice_vizinho as int,
        ),
        EstadoAlgoritmo::FinalizandoExpansao => passo_finalizar(b),
        EstadoAlgoritmo::CaminhoEncontrado => (b, evento_caminho_encontrado(grafo, problema, b)),
        EstadoAlgoritmo::SemCaminho => (b, Evento::NenhumCaminho),
    }
}

/// The search after `n` steps from `b`.
pub open spec fn apos(grafo: GrafoMetro, problema: Problema, b: Busca, n: nat) -> Busca
    decreases n,
{
    if n == 0 {
        b
    } else {
        passo(grafo, problema, apos(grafo, problema, b, (n - 1) as nat)).0
    }
}

/// The events that the first `n` steps from `b` report, in order.
pub open spec fn eventos(grafo: GrafoMetro, problema: Problema, b: Busca, n: nat) -> Seq<Evento>
    decreases n,
{
    if n == 0 {
        Seq::empty()
    } else {
        eventos(grafo, problema, b, (n - 1) as nat).push(
            passo(grafo, problema, apos(grafo, problema, b, (n - 1) as nat)).1,
        )
    }
}

/// Whether a search can be met with: it is what some number of steps makes of
/// the initial search.
pub open spec fn alcancavel(grafo: GrafoMetro, problema: Problema, b: Busca) -> bool {
    exists|n: nat| b == #[trigger] apos(grafo, problema, inicial(grafo, problema), n)
}

// ---------------------------------------------------------------------------
// Well-formed searches
// ---------------------------------------------------------------------------
/// What holds of every node that a search makes: its station is in the graph,
/// its f is its g plus the estimate from its station, and its g is no more
/// than its path can have cost.
pub open spec fn no_bem_formado(grafo: GrafoMetro, problema: Problema, no: No) -> bool {
    &&& 0 <= no.id_estacao < grafo.numero_estacoes()
    &&& 0 <= no.custo_g
    &&& no.custo_f == no.custo_g + grafo.heuristica(no.id_estacao, problema.objetivo)
    &&& no.caminho.len() >= 1
    &&& no.custo_g <= (no.caminho.len() - 1) * CUSTO_MAXIMO_POR_TRECHO
}

/// What the state machine needs of the rest of the search in each of its states.
pub open spec fn estado_coerente(grafo: GrafoMetro, b: Busca) -> bool {
    match b.estado_atual {
        EstadoAlgoritmo::VerificandoObjetivo
        | EstadoAlgoritmo::VerificandoSeJaExplorado
        | EstadoAlgoritmo::CaminhoEncontrado => b.no_atual is Some,
        EstadoAlgoritmo::AvaliandoVizinho { indice_vizinho } => {
            &&& b.no_atual is Some
            &&& indice_vizinho < grafo.conexoes_de(b.no_atual->0.id_estacao).len()
            &&& 0 <= b.vizinhos_adicionados <= indice_vizinho
        },
        EstadoAlgoritmo::FinalizandoExpansao => {
            &&& b.no_atual is Some
            &&& 0 <= b.vizinhos_adicionados <= grafo.conexoes_de(b.no_atual->0.id_estacao).len()
        },
        _ => true,
    }
}

/// A search that a step can be taken from. Every search that is reached
/// from the initial one is well formed.
pub open spec fn busca_bem_formada(grafo: GrafoMetro, problema: Problema, b: Busca) -> bool {
    &&& b.status_estacoes.len() == grafo.numero_estacoes()
    &&& forall|i: int|
        0 <= i < b.fronteira.len() ==> no_bem_formado(grafo, problema, #[trigger] b.fronteira[i])
    &&& (b.no_atual matches Some(no) ==> no_bem_formado(grafo, problema, no))
    &&& (b.estacao_sendo_explorada matches Some(e) ==> 0 <= e < grafo.numero_estacoes())
    &&& forall|chave: Chave| #[trigger]
        b.predecessores.contains_key(chave) ==> 0 <= b.predecessores[chave].0
            < grafo.numero_estacoes()
    &&& estado_coerente(grafo, b)
}

// ---------------------------------------------------------------------------
// History
// ---------------------------------------------------------------------------
/// The history after a snapshot is put on it: the oldest snapshot leaves
/// where the history would hold more than `max` of them.
pub open spec fn registrar(historico: Seq<Busca>, b: Busca, max: int) -> Seq<Busca> {
    let h = historico.push(b);
    if h.len() > max {
        h.drop_first()
    } else {
        h
    }
}

/// One step of the solver: a search that has not ended is put on the
/// history, then steps. A search that has ended changes nothing.
pub open spec fn avancar(grafo: GrafoMetro, problema: Problema, m: Motor) -> (Motor, Evento) {
    let (b, evento) = passo(grafo, problema, m.busca);
    if terminou(m.busca) {
        (m, evento)
    } else {
        (Motor { busca: b, historico: registrar(m.historico, m.busca, m.max_historico), ..m }, evento)
    }
}

/// One step back: the newest snapshot becomes the search again. The result
/// says whether there was one.
pub open spec fn voltar(m: Motor) -> (Motor, bool) {
    if m.historico.len() == 0 {
        (m, false)
    } else {
        (Motor { busca: m.historico.last(), historico: m.historico.drop_last(), ..m }, true)
    }
}

/// The solver after `n` steps from `m`.
pub open spec fn avancar_n(grafo: GrafoMetro, problema: Problema, m: Motor, n: nat) -> Motor
    decreases n,
{
    if n == 0 {
        m
    } else {
        avancar(grafo, problema, avancar_n(grafo, problema, m, (n - 1) as nat)).0
    }
}

/// The events that the solver's first `n` steps from `m` report, in order.
pub open spec fn eventos_do_motor(grafo: GrafoMetro, problema: Problema, m: Motor, n: nat) -> Seq<Evento>
    decreases n,
{
    if n == 0 {
        Seq::empty()
    } else {
        eventos_do_motor(grafo, problema, m, (n - 1) as nat).push(
            avancar(grafo, problema, avancar_n(grafo, problema, m, (n - 1) as nat)).1,
        )
    }
}

/// `n` steps report `n` events.
pub proof fn lema_numero_de_eventos(grafo: GrafoMetro, problema: Problema, m: Motor, n: nat)
    ensures
        eventos_do_motor(grafo, problema, m, n).len() == n,
    decreases n,
{
    if n > 0 {
        lema_numero_de_eventos(grafo, problema, m, (n - 1) as nat);
    }
}

/// What a round of steps comes back with.
pub enum Resultado {
    EmProgresso,
    CaminhoEncontrado(Itinerario),
    NenhumCaminhoPossivel,
    Erro(Seq<char>),
}

/// Whether an event closes a round: the search has ended, or the node taken
/// out of the frontier has been dealt with.
pub open spec fn fecha_rodada(evento: Evento) -> bool {
    evento is CaminhoEncontrado || evento is NenhumCaminho || evento is NoJaExplorado
        || evento is FimDaExpansaoDeNo
}

/// What a round that closes with `evento` comes back with.
pub open spec fn resultado_do_evento(evento: Evento) -> Resultado {
    match evento {
        Evento::CaminhoEncontrado { info_caminho } => Resultado::CaminhoEncontrado(info_caminho),
        Evento::NenhumCaminho => Resultado::NenhumCaminhoPossivel,
        _ => Resultado::EmProgresso,
    }
}

/// Whether the first `k` steps of the solver from `m` make one round: the
/// last of them closes it, and none before does.
pub open spec fn eh_rodada(grafo: GrafoMetro, problema: Problema, m: Motor, k: nat) -> bool {
    &&& k >= 1
    &&& fecha_rodada(eventos_do_motor(grafo, problema, m, k).last())
    &&& forall|j: int| 0 <= j < k - 1 ==> !fecha_rodada(#[trigger] eventos_do_motor(grafo, problema, m, k)[j])
}

/// The solver after `n` steps back from `m`.
pub open spec fn voltar_n(m: Motor, n: nat) -> Motor
    decreases n,
{
    if n == 0 {
        m
    } else {
        voltar(voltar_n(m, (n - 1) as nat)).0
    }
}

} // verus!
