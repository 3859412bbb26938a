//! Laws of the solver, stated over the model that its operations compute.

use crate::algoritmo_a_estrela::SolucionadorAEstrela;
use crate::grafo_metro::GrafoMetro;
use crate::modelo::{
    apos, avancar_n, contar_trocas, evento_caminho_encontrado, eventos,
    eventos_do_motor, inicial, limite_de_elos, passo, reconstruir, registrar, terminou, voltar_n,
    Busca, Chave, Motor, No, Predecessor, Problema,
};
use crate::invariantes::{itinerario_correto, lema_alcancavel_base, lema_itinerario_correto};
use crate::otimalidade::{lema_alcancavel_invariante, lema_custo_minimo_no_objetivo};
use crate::rotas::{alcanca, custo_da_rota, destino, heuristica_consistente, rota_valida, Rota};
use vstd::prelude::*;

verus! {

// ---------------------------------------------------------------------------
// Optimality
// ---------------------------------------------------------------------------
/// The total time of the itinerary that a search ends with is the least time
/// of all routes from the origin to the goal station, when the heuristic is
/// consistent: some route to the goal takes that time, and no route takes
/// less. The time of a route is the sum of the travel times of its
/// connections, plus the transfer time for each change of line.
pub proof fn lei_tempo_total_minimo(grafo: GrafoMetro, problema: Problema, n: nat, rota: Rota)
    requires
        grafo.bem_formado(),
        problema.valido(grafo),
        heuristica_consistente(grafo, problema.objetivo),
        apos(grafo, problema, inicial(grafo, problema), n).estado_atual is CaminhoEncontrado,
        rota_valida(grafo, problema.origem(), rota),
        destino(grafo, problema.origem(), rota).0 == problema.objetivo,
    ensures
        ({
            let b = apos(grafo, problema, inicial(grafo, problema), n);
            let info = evento_caminho_encontrado(grafo, problema, b)->info_caminho;
            &&& info.tempo_total <= custo_da_rota(grafo, problema.origem(), rota)
            &&& b.no_atual->0.id_estacao == problema.objetivo
            &&& alcanca(grafo, problema.origem(), b.no_atual->0.chave(), info.tempo_total)
        }),
{
    let b = apos(grafo, problema, inicial(grafo, problema), n);
    lema_alcancavel_invariante(grafo, problema, n);
    lema_custo_minimo_no_objetivo(grafo, problema, b, rota);
}

/// The same of a solver: once it has found its goal, the total time that it
/// reports is the least time of all routes from its origin to its goal
/// station, when the heuristic of its graph is consistent.
pub proof fn lei_tempo_total_minimo_do_solucionador(solucionador: SolucionadorAEstrela, rota: Rota)
    requires
        solucionador.valido(),
        heuristica_consistente(solucionador.grafo(), solucionador.problema().objetivo),
        solucionador@.busca.estado_atual is CaminhoEncontrado,
        rota_valida(solucionador.grafo(), solucionador.problema().origem(), rota),
        destino(solucionador.grafo(), solucionador.problema().origem(), rota).0
            == solucionador.problema().objetivo,
    ensures
        ({
            let grafo = solucionador.grafo();
            let problema = solucionador.problema();
            let b = solucionador@.busca;
            let info = evento_caminho_encontrado(grafo, problema, b)->info_caminho;
            &&& info.tempo_total <= custo_da_rota(grafo, problema.origem(), rota)
            &&& b.no_atual->0.id_estacao == problema.objetivo
            &&& alcanca(grafo, problema.origem(), b.no_atual->0.chave(), info.tempo_total)
        }),
{
    let grafo = solucionador.grafo();
    let problema = solucionador.problema();
    solucionador.lema_valido();
    let n = choose|n: nat|
        solucionador@.busca == #[trigger] apos(grafo, problema, inicial(grafo, problema), n);
    lei_tempo_total_minimo(grafo, problema, n, rota);
}

// ---------------------------------------------------------------------------
// The itinerary
// ---------------------------------------------------------------------------
/// The itinerary that a solver reports once it has found its goal is right,
/// whatever the heuristic: its back-links reached the origin, its path is
/// that of a route of the graph from the origin to the goal, its total time
/// is the time of that route, and its transfers are the changes of line
/// along the path.
pub proof fn lei_itinerario_correto(solucionador: SolucionadorAEstrela)
    requires
        solucionador.valido(),
        solucionador@.busca.estado_atual is CaminhoEncontrado,
    ensures
        itinerario_correto(
            solucionador.grafo(),
            solucionador.problema(),
            evento_caminho_encontrado(
                solucionador.grafo(),
                solucionador.problema(),
                solucionador@.busca,
            )->info_caminho,
        ),
{
    let grafo = solucionador.grafo();
    let problema = solucionador.problema();
    solucionador.lema_valido();
    let n = choose|n: nat|
        solucionador@.busca == #[trigger] apos(grafo, problema, inicial(grafo, problema), n);
    lema_alcancavel_base(grafo, problema, n);
    lema_itinerario_correto(
        grafo,
        problema,
        solucionador@.busca,
        limite_de_elos(grafo.numero_estacoes()),
    );
}

// ---------------------------------------------------------------------------
// Determinism
// ---------------------------------------------------------------------------
/// A search that has ended stays as it is.
pub proof fn lema_fim_permanente(grafo: GrafoMetro, problema: Problema, b: Busca, i: nat, j: nat)
    requires
        terminou(apos(grafo, problema, b, i)),
        i <= j,
    ensures
        apos(grafo, problema, b, j) == apos(grafo, problema, b, i),
    decreases j - i,
{
    if i < j {
        lema_fim_permanente(grafo, problema, b, i, (j - 1) as nat);
    }
}

/// What a solver does in `n` steps is what its search does: the history and
/// its bound have no part in it.
pub proof fn lema_motor_segue_a_busca(grafo: GrafoMetro, problema: Problema, m: Motor, n: nat)
    ensures
        avancar_n(grafo, problema, m, n).busca == apos(grafo, problema, m.busca, n),
        avancar_n(grafo, problema, m, n).max_historico == m.max_historico,
        eventos_do_motor(grafo, problema, m, n) == eventos(grafo, problema, m.busca, n),
    decreases n,
{
    if n > 0 {
        lema_motor_segue_a_busca(grafo, problema, m, (n - 1) as nat);
    }
}

/// Determinism: the events that a solver reports, and the search that it
/// reaches, are functions of the graph, the problem and the search that it
/// starts from. Two solvers that agree on these report the same events in
/// any number of steps.
pub proof fn lei_determinismo(grafo: GrafoMetro, problema: Problema, m1: Motor, m2: Motor, n: nat)
    requires
        m1.busca == m2.busca,
    ensures
        eventos_do_motor(grafo, problema, m1, n) == eventos_do_motor(grafo, problema, m2, n),
        avancar_n(grafo, problema, m1, n).busca == avancar_n(grafo, problema, m2, n).busca,
{
    lema_motor_segue_a_busca(grafo, problema, m1, n);
    lema_motor_segue_a_busca(grafo, problema, m2, n);
}

// ---------------------------------------------------------------------------
// Monotonicity
// ---------------------------------------------------------------------------
/// Whether every state explored in `antes` is explored in `depois`, and
/// every best cost of `antes` is still known in `depois` and is no greater.
pub open spec fn nao_regride(antes: Busca, depois: Busca) -> bool {
    &&& forall|chave: Chave| #[trigger]
        antes.explorados.contains(chave) ==> depois.explorados.contains(chave)
    &&& forall|chave: Chave| #[trigger]
        antes.custos_g.contains_key(chave) ==> depois.custos_g.contains_key(chave)
            && depois.custos_g[chave] <= antes.custos_g[chave]
}

/// Monotonicity of one step. Explored states stay explored, and a state
/// becomes explored only by the step that begins its expansion, which it
/// does only to a state that was not explored. Best costs never grow, and
/// one is set or lowered only by the evaluation of a connection that puts a
/// node of that state and cost into the frontier.
pub proof fn lei_monotonia_do_passo(grafo: GrafoMetro, problema: Problema, b: Busca)
    ensures
        ({
            let (b2, evento) = passo(grafo, problema, b);
            &&& nao_regride(b, b2)
            &&& forall|chave: Chave|
                #![trigger b2.explorados.contains(chave)]
                b2.explorados.contains(chave) && !b.explorados.contains(chave) ==> evento
                    is InicioDaExpansaoDeNo && chave == b.no_atual->0.chave()
            &&& evento is InicioDaExpansaoDeNo ==> !b.explorados.contains(b.no_atual->0.chave())
                && b2.explorados.contains(b.no_atual->0.chave())
            &&& forall|chave: Chave|
                #![trigger b2.custos_g.contains_key(chave)]
                b2.custos_g.contains_key(chave) && (!b.custos_g.contains_key(chave)
                    || b2.custos_g[chave] < b.custos_g[chave]) ==> {
                    &&& evento is AvaliandoVizinho
                    &&& b2.fronteira == b.fronteira.push(b2.fronteira.last())
                    &&& b2.fronteira.last().chave() == chave
                    &&& b2.fronteira.last().custo_g == b2.custos_g[chave]
                }
        }),
{
}

/// Monotonicity over any number of steps: from any search, what `n` steps
/// have explored stays explored after `m >= n` steps, and no best cost is
/// greater after `m` steps than after `n`.
pub proof fn lei_monotonia(grafo: GrafoMetro, problema: Problema, b: Busca, n: nat, m: nat)
    requires
        n <= m,
    ensures
        nao_regride(apos(grafo, problema, b, n), apos(grafo, problema, b, m)),
    decreases m - n,
{
    if n < m {
        lei_monotonia(grafo, problema, b, n, (m - 1) as nat);
        lei_monotonia_do_passo(grafo, problema, apos(grafo, problema, b, (m - 1) as nat));
    }
}

/// No state is expanded twice: two steps of one run that each begin an
/// expansion begin the expansions of different states.
pub proof fn lei_sem_reexpansao(grafo: GrafoMetro, problema: Problema, b: Busca, i: nat, j: nat)
    requires
        i < j,
        passo(grafo, problema, apos(grafo, problema, b, i)).1 is InicioDaExpansaoDeNo,
        passo(grafo, problema, apos(grafo, problema, b, j)).1 is InicioDaExpansaoDeNo,
    ensures
        apos(grafo, problema, b, i).no_atual->0.chave() != apos(grafo, problema, b, j).no_atual->0.chave(),
{
    let chave = apos(grafo, problema, b, i).no_atual->0.chave();
    lei_monotonia_do_passo(grafo, problema, apos(grafo, problema, b, i));
    assert(apos(grafo, problema, b, i + 1).explorados.contains(chave));
    lei_monotonia(grafo, problema, b, i + 1, j);
    lei_monotonia_do_passo(grafo, problema, apos(grafo, problema, b, j));
}

// ---------------------------------------------------------------------------
// Transfers
// ---------------------------------------------------------------------------
/// The number of transfers of an itinerary is the number of changes of line
/// counted along its path, and its total time is the cost of the node that
/// it ends in.
pub proof fn lei_contagem_de_baldeacoes(
    predecessores: Map<Chave, Predecessor>,
    origem: Chave,
    no_final: No,
    passos: nat,
)
    ensures
        reconstruir(predecessores, origem, no_final, passos).baldeacoes == contar_trocas(
            reconstruir(predecessores, origem, no_final, passos).estacoes_do_caminho,
        ),
        reconstruir(predecessores, origem, no_final, passos).tempo_total == no_final.custo_g,
{
}

// ---------------------------------------------------------------------------
// Stepping back and forth
// ---------------------------------------------------------------------------
/// Of the first `n` steps from `b`, the number that change the search: those
/// taken before the search has ended.
pub open spec fn passos_efetivos(grafo: GrafoMetro, problema: Problema, b: Busca, n: nat) -> nat
    decreases n,
{
    if n == 0 {
        0
    } else {
        passos_efetivos(grafo, problema, b, (n - 1) as nat) + if terminou(
            apos(grafo, problema, b, (n - 1) as nat),
        ) {
            0nat
        } else {
            1nat
        }
    }
}

/// The steps that change the search come first: there are at most `n` of
/// them among the first `n`, and where step `n` changes the search, so did
/// all before it.
proof fn lema_passos_efetivos(grafo: GrafoMetro, problema: Problema, b: Busca, n: nat)
    ensures
        passos_efetivos(grafo, problema, b, n) <= n,
        n > 0 && !terminou(apos(grafo, problema, b, (n - 1) as nat)) ==> passos_efetivos(
            grafo,
            problema,
            b,
            n,
        ) == n,
        passos_efetivos(grafo, problema, b, n) < n ==> terminou(
            apos(grafo, problema, b, passos_efetivos(grafo, problema, b, n)),
        ),
    decreases n,
{
    if n > 0 {
        let antes = (n - 1) as nat;
        lema_passos_efetivos(grafo, problema, b, antes);
        let k = passos_efetivos(grafo, problema, b, antes);
        if k < antes {
            lema_fim_permanente(grafo, problema, b, k, antes);
        }
    }
}

/// After `n` steps the newest snapshots of the history are the searches
/// that the steps started from, in order, as long as the history can hold
/// them.
proof fn lema_historico_apos_passos(grafo: GrafoMetro, problema: Problema, m: Motor, n: nat)
    requires
        m.historico.len() <= m.max_historico,
        passos_efetivos(grafo, problema, m.busca, n) <= m.max_historico,
    ensures
        ({
            let d = avancar_n(grafo, problema, m, n);
            let k = passos_efetivos(grafo, problema, m.busca, n);
            &&& k <= d.historico.len() <= m.max_historico
            &&& d.historico.len() <= m.historico.len() + k
            &&& forall|j: int|
                0 <= j < k ==> #[trigger] d.historico[d.historico.len() - k + j] == apos(
                    grafo,
                    problema,
                    m.busca,
                    j as nat,
                )
        }),
    decreases n,
{
    if n > 0 {
        let antes = (n - 1) as nat;
        lema_passos_efetivos(grafo, problema, m.busca, n);
        lema_passos_efetivos(grafo, problema, m.busca, antes);
        lema_historico_apos_passos(grafo, problema, m, antes);
        lema_motor_segue_a_busca(grafo, problema, m, antes);
        let d0 = avancar_n(grafo, problema, m, antes);
        let k0 = passos_efetivos(grafo, problema, m.busca, antes);
        let d = avancar_n(grafo, problema, m, n);
        let k = passos_efetivos(grafo, problema, m.busca, n);
        if !terminou(d0.busca) {
            let cheio = d0.historico.push(d0.busca);
            assert(d.historico == registrar(d0.historico, d0.busca, m.max_historico));
            assert(k == k0 + 1 && k0 == antes);
            assert forall|j: int| 0 <= j < k implies #[trigger] d.historico[d.historico.len() - k + j]
                == apos(grafo, problema, m.busca, j as nat) by {
                if j < k0 {
                    assert(d0.historico[d0.historico.len() - k0 + j] == apos(
                        grafo,
                        problema,
                        m.busca,
                        j as nat,
                    ));
                    assert(cheio[d0.historico.len() - k0 + j] == d0.historico[d0.historico.len() - k0
                        + j]);
                } else {
                    assert(cheio[cheio.len() - 1] == d0.busca);
                }
            }
        }
    }
}

/// What `n` steps back leave: the search that the `n`-th newest snapshot
/// holds, or the oldest where the history holds fewer.
proof fn lema_voltar_n(m: Motor, n: nat)
    ensures
        ({
            let v = voltar_n(m, n);
            let p = if n <= m.historico.len() {
                n as int
            } else {
                m.historico.len() as int
            };
            &&& v.historico == m.historico.take(m.historico.len() - p)
            &&& v.max_historico == m.max_historico
            &&& v.busca == if p == 0 {
                m.busca
            } else {
                m.historico[m.historico.len() - p]
            }
        }),
    decreases n,
{
    if n == 0 {
        assert(m.historico.take(m.historico.len() as int) =~= m.historico);
    } else {
        lema_voltar_n(m, (n - 1) as nat);
        let v0 = voltar_n(m, (n - 1) as nat);
        let v = voltar_n(m, n);
        if v0.historico.len() > 0 {
            assert(v.historico =~= m.historico.take(m.historico.len() - n));
        }
    }
}

/// Stepping forth and back: `n` steps, then `n` steps back, lead to the
/// search that the steps started from, and `n` steps from there report the
/// events of the first `n` steps again.
///
/// This holds while the history can hold a snapshot for each of the steps
/// that changed the search. Where some of the `n` steps found the search
/// ended and left no snapshot, the steps back number more than the
/// snapshots of this run, so the history must have been empty at the start.
pub proof fn lei_ida_e_volta(grafo: GrafoMetro, problema: Problema, m: Motor, n: nat)
    requires
        m.historico.len() <= m.max_historico,
        passos_efetivos(grafo, problema, m.busca, n) <= m.max_historico,
        passos_efetivos(grafo, problema, m.busca, n) == n || m.historico.len() == 0,
    ensures
        voltar_n(avancar_n(grafo, problema, m, n), n).busca == m.busca,
        eventos_do_motor(grafo, problema, voltar_n(avancar_n(grafo, problema, m, n), n), n)
            == eventos_do_motor(grafo, problema, m, n),
{
    let d = avancar_n(grafo, problema, m, n);
    let k = passos_efetivos(grafo, problema, m.busca, n);
    let v = voltar_n(d, n);
    lema_passos_efetivos(grafo, problema, m.busca, n);
    lema_historico_apos_passos(grafo, problema, m, n);
    lema_motor_segue_a_busca(grafo, problema, m, n);
    lema_voltar_n(d, n);
    if k == 0 {
        if n > 0 {
            lema_fim_permanente(grafo, problema, m.busca, 0, n);
        }
    } else {
        assert(d.historico[d.historico.len() - k + 0] == apos(grafo, problema, m.busca, 0));
    }
    assert(v.busca == m.busca);
    lema_motor_segue_a_busca(grafo, problema, v, n);
}

} // verus!
