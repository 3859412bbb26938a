//! Routes through the network and what they cost: the yardstick that the
//! result of a search is held against.

use crate::grafo_metro::{conexao_bem_formada, GrafoMetro};
use crate::modelo::{chave_de_chegada, custo_baldeacao, Chave};
use vstd::prelude::*;

verus! {

/// A route from some state: the connections taken, each given by its
/// position in the connection list of the station that the route has reached.
pub type Rota = Seq<int>;

/// The state that `rota` ends in when it starts from `origem`.
pub open spec fn destino(grafo: GrafoMetro, origem: Chave, rota: Rota) -> Chave
    decreases rota.len(),
{
    if rota.len() == 0 {
        origem
    } else {
        let antes = destino(grafo, origem, rota.drop_last());
        chave_de_chegada(grafo.conexoes_de(antes.0)[rota.last()])
    }
}

/// Whether `rota` can be travelled from `origem`: the origin is a station of
/// the graph, and each step names a connection that leaves the station
/// reached so far.
pub open spec fn rota_valida(grafo: GrafoMetro, origem: Chave, rota: Rota) -> bool
    decreases rota.len(),
{
    if rota.len() == 0 {
        0 <= origem.0 < grafo.numero_estacoes()
    } else {
        &&& rota_valida(grafo, origem, rota.drop_last())
        &&& 0 <= rota.last() < grafo.conexoes_de(destino(grafo, origem, rota.drop_last()).0).len()
    }
}

/// The time that `rota` takes from `origem`: the travel times of its
/// connections, and the transfer time for each connection whose line is not
/// the line by which its station was reached.
pub open spec fn custo_da_rota(grafo: GrafoMetro, origem: Chave, rota: Rota) -> int
    decreases rota.len(),
{
    if rota.len() == 0 {
        0
    } else {
        let antes = destino(grafo, origem, rota.drop_last());
        let conexao = grafo.conexoes_de(antes.0)[rota.last()];
        custo_da_rota(grafo, origem, rota.drop_last()) + conexao.tempo_minutos + custo_baldeacao(
            antes.1,
            conexao.cor_linha,
        )
    }
}

/// The states that `rota` passes from `origem`, the origin first and the
/// state that it ends in last.
pub open spec fn chaves_da_rota(grafo: GrafoMetro, origem: Chave, rota: Rota) -> Seq<Chave>
    decreases rota.len(),
{
    if rota.len() == 0 {
        seq![origem]
    } else {
        chaves_da_rota(grafo, origem, rota.drop_last()).push(destino(grafo, origem, rota))
    }
}

/// Whether `rota` leads from `origem` to `chave` in time `custo`.
pub open spec fn leva_a(grafo: GrafoMetro, origem: Chave, rota: Rota, chave: Chave, custo: int) -> bool {
    &&& rota_valida(grafo, origem, rota)
    &&& destino(grafo, origem, rota) == chave
    &&& custo_da_rota(grafo, origem, rota) == custo
}

/// Whether some route leads from `origem` to `chave` in time `custo`.
pub open spec fn alcanca(grafo: GrafoMetro, origem: Chave, chave: Chave, custo: int) -> bool {
    exists|rota: Rota| #[trigger] leva_a(grafo, origem, rota, chave, custo)
}

/// Whether the heuristic toward `objetivo` is consistent: it is zero at the
/// goal, and along no connection does it drop by more than the connection's
/// travel time. The zero heuristic is consistent.
pub open spec fn heuristica_consistente(grafo: GrafoMetro, objetivo: int) -> bool {
    &&& grafo.heuristica(objetivo, objetivo) == 0
    &&& forall|i: int, j: int|
        0 <= i < grafo.numero_estacoes() && 0 <= j < grafo.conexoes_de(i).len() ==> grafo.heuristica(
            i,
            objetivo,
        ) <= (#[trigger] grafo.conexoes_de(i)[j]).tempo_minutos + grafo.heuristica(
            grafo.conexoes_de(i)[j].para_estacao as int,
            objetivo,
        )
}

/// A route of a well-formed graph ends at a station of the graph, and costs
/// nothing negative.
pub proof fn lema_rota_no_grafo(grafo: GrafoMetro, origem: Chave, rota: Rota)
    requires
        grafo.bem_formado(),
        rota_valida(grafo, origem, rota),
    ensures
        0 <= destino(grafo, origem, rota).0 < grafo.numero_estacoes(),
        0 <= custo_da_rota(grafo, origem, rota),
    decreases rota.len(),
{
    if rota.len() > 0 {
        let antes = rota.drop_last();
        lema_rota_no_grafo(grafo, origem, antes);
        let k = destino(grafo, origem, antes);
        assert(conexao_bem_formada(grafo.conexoes_de(k.0)[rota.last()], grafo.numero_estacoes()));
    }
}

/// A route with one more connection at its end.
pub proof fn lema_estender_rota(grafo: GrafoMetro, origem: Chave, rota: Rota, indice: int)
    requires
        rota_valida(grafo, origem, rota),
        0 <= indice < grafo.conexoes_de(destino(grafo, origem, rota).0).len(),
    ensures
        rota_valida(grafo, origem, rota.push(indice)),
        destino(grafo, origem, rota.push(indice)) == chave_de_chegada(
            grafo.conexoes_de(destino(grafo, origem, rota).0)[indice],
        ),
        custo_da_rota(grafo, origem, rota.push(indice)) == custo_da_rota(grafo, origem, rota)
            + grafo.conexoes_de(destino(grafo, origem, rota).0)[indice].tempo_minutos + custo_baldeacao(
            destino(grafo, origem, rota).1,
            grafo.conexoes_de(destino(grafo, origem, rota).0)[indice].cor_linha,
        ),
{
    let maior = rota.push(indice);
    assert(maior.drop_last() =~= rota);
    assert(maior.last() == indice);
}

/// Under a consistent heuristic, cost so far plus estimate never drops along
/// a route: what holds `k` connections into the route bounds what holds at
/// its end.
pub proof fn lema_estimativa_ao_longo_da_rota(
    grafo: GrafoMetro,
    origem: Chave,
    objetivo: int,
    rota: Rota,
    k: int,
)
    requires
        grafo.bem_formado(),
        heuristica_consistente(grafo, objetivo),
        rota_valida(grafo, origem, rota),
        0 <= k <= rota.len(),
    ensures
        rota_valida(grafo, origem, rota.take(k)),
        custo_da_rota(grafo, origem, rota.take(k)) + grafo.heuristica(
            destino(grafo, origem, rota.take(k)).0,
            objetivo,
        ) <= custo_da_rota(grafo, origem, rota) + grafo.heuristica(
            destino(grafo, origem, rota).0,
            objetivo,
        ),
    decreases rota.len(),
{
    if k == rota.len() {
        assert(rota.take(k) =~= rota);
    } else {
        let antes = rota.drop_last();
        lema_estimativa_ao_longo_da_rota(grafo, origem, objetivo, antes, k);
        assert(antes.take(k) =~= rota.take(k));
        lema_rota_no_grafo(grafo, origem, antes);
        let chave = destino(grafo, origem, antes);
        let conexao = grafo.conexoes_de(chave.0)[rota.last()];
        assert(grafo.heuristica(chave.0, objetivo) <= conexao.tempo_minutos + grafo.heuristica(
            conexao.para_estacao as int,
            objetivo,
        ));
    }
}

} // verus!
