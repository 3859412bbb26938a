//! What every search reached from the initial one satisfies, whatever the
//! heuristic: its books are kept right. The best cost of a state that is not
//! explored is the cost of a candidate for it, every back-link is explained
//! by a connection of the graph, and the back-links of a candidate lead to
//! the origin along the path that the candidate carries. So the itinerary
//! that a search ends with is a route of the graph from the origin to the
//! goal, and its total time is the time of that route.

use crate::algoritmo_a_estrela::{em_expansao, EstadoAlgoritmo};
use crate::grafo_metro::{conexao_bem_formada, distancia_bem_formada, GrafoMetro};
use crate::modelo::{
    apos, busca_bem_formada, cadeia, chave_de_chegada, contar_trocas, custo_baldeacao, elo_utilizavel,
    indice_do_proximo, inicial, lema_indice_do_proximo, no_bem_formado, passo, reconstruir, tem_prioridade,
    Busca, Chave, Itinerario, No, Predecessor, Problema, CUSTO_MAXIMO_POR_TRECHO,
};
use crate::rotas::{chaves_da_rota, lema_estender_rota, leva_a, Rota};
use vstd::prelude::*;

verus! {

// ---------------------------------------------------------------------------
// Steps keep a search well formed
// ---------------------------------------------------------------------------
/// The heuristic of a well-formed graph is never negative.
pub proof fn lema_heuristica_limitada(grafo: GrafoMetro, de: int, para: int)
    requires
        grafo.bem_formado(),
        0 <= de < grafo.numero_estacoes(),
        0 <= para < grafo.numero_estacoes(),
    ensures
        0 <= grafo.heuristica(de, para),
{
    assert(distancia_bem_formada(grafo.distancia_heuristica(de, para)));
}

/// A step takes a well-formed search to a well-formed search.
pub proof fn lema_passo_bem_formada(grafo: GrafoMetro, problema: Problema, b: Busca)
    requires
        grafo.bem_formado(),
        problema.valido(grafo),
        busca_bem_formada(grafo, problema, b),
    ensures
        busca_bem_formada(grafo, problema, passo(grafo, problema, b).0),
{
    let b2 = passo(grafo, problema, b).0;
    match b.estado_atual {
        EstadoAlgoritmo::SelecionandoNoDaFronteira => {
            assert(b2.predecessores == b.predecessores);
            if b.fronteira.len() > 0 {
                let i = indice_do_proximo(b.fronteira);
                lema_indice_do_proximo(b.fronteira);
                assert(no_bem_formado(grafo, problema, b.fronteira[i]));
                assert(b2.no_atual == Some(b.fronteira[i]));
                assert(b2.fronteira == b.fronteira.remove(i));
                assert forall|k: int| 0 <= k < b2.fronteira.len() implies no_bem_formado(
                    grafo,
                    problema,
                    #[trigger] b2.fronteira[k],
                ) by {
                    if k < i {
                        assert(b2.fronteira[k] == b.fronteira[k]);
                    } else {
                        assert(b2.fronteira[k] == b.fronteira[k + 1]);
                    }
                }
            }
        },
        EstadoAlgoritmo::VerificandoSeJaExplorado => {
            assert(no_bem_formado(grafo, problema, b.no_atual->0));
        },
        EstadoAlgoritmo::AvaliandoVizinho { indice_vizinho } => {
            let no = b.no_atual->0;
            let conexao = grafo.conexoes_de(no.id_estacao)[indice_vizinho as int];
            assert(no_bem_formado(grafo, problema, no));
            assert(conexao_bem_formada(conexao, grafo.numero_estacoes()));
            grafo.lema_numero_de_conexoes(no.id_estacao);
            if b2.fronteira.len() > b.fronteira.len() {
                let novo = b2.fronteira.last();
                let baldeacao = custo_baldeacao(no.linha_chegada, conexao.cor_linha);
                assert(novo.caminho.len() == no.caminho.len() + 1);
                assert(novo.custo_g <= (novo.caminho.len() - 1) * CUSTO_MAXIMO_POR_TRECHO)
                    by (nonlinear_arith)
                    requires
                        novo.custo_g == no.custo_g + conexao.tempo_minutos + baldeacao,
                        conexao.tempo_minutos + baldeacao <= CUSTO_MAXIMO_POR_TRECHO,
                        no.custo_g <= (no.caminho.len() - 1) * CUSTO_MAXIMO_POR_TRECHO,
                        novo.caminho.len() == no.caminho.len() + 1,
                ;
                assert(no_bem_formado(grafo, problema, novo));
                assert forall|k: int| 0 <= k < b2.fronteira.len() implies no_bem_formado(
                    grafo,
                    problema,
                    #[trigger] b2.fronteira[k],
                ) by {
                    if k < b.fronteira.len() {
                        assert(b2.fronteira[k] == b.fronteira[k]);
                    }
                }
            }
        },
        _ => {},
    }
}

// ---------------------------------------------------------------------------
// The invariant
// ---------------------------------------------------------------------------
/// Whether the node taken out of the frontier is still to be dealt with.
pub open spec fn aguardando(estado: EstadoAlgoritmo) -> bool {
    estado is VerificandoObjetivo || estado is VerificandoSeJaExplorado || estado is CaminhoEncontrado
}

/// Whether `no` is a candidate of the search: a node of the frontier, or the
/// node taken out of it and not yet dealt with.
pub open spec fn pendente(b: Busca, no: No) -> bool {
    b.fronteira.contains(no) || (aguardando(b.estado_atual) && b.no_atual == Some(no))
}

/// Whether the best cost known for `chave` is at most `limite`.
pub open spec fn custo_conhecido(b: Busca, chave: Chave, limite: int) -> bool {
    b.custos_g.contains_key(chave) && b.custos_g[chave] <= limite
}

/// The best cost of the origin is zero.
pub open spec fn inv_origem(problema: Problema, b: Busca) -> bool {
    b.custos_g.contains_key(problema.origem()) && b.custos_g[problema.origem()] == 0
}

/// The best cost known for the state of a candidate is no more than the cost
/// of the candidate.
pub open spec fn inv_custos(b: Busca) -> bool {
    forall|no: No| #[trigger] pendente(b, no) ==> custo_conhecido(b, no.chave(), no.custo_g)
}

/// The best cost known for a state that is not explored is the cost of a
/// candidate for that state.
pub open spec fn inv_melhor_custo(b: Busca) -> bool {
    forall|chave: Chave|
        #![trigger b.custos_g.contains_key(chave)]
        b.custos_g.contains_key(chave) && !b.explorados.contains(chave) ==> exists|no: No| #[trigger]
            pendente(b, no) && no.chave() == chave && no.custo_g == b.custos_g[chave]
}

/// Every explored state is a state of the graph that has a best cost, and
/// none is at the goal.
pub open spec fn inv_explorados(grafo: GrafoMetro, problema: Problema, b: Busca) -> bool {
    forall|s: Chave| #[trigger]
        b.explorados.contains(s) ==> 0 <= s.0 < grafo.numero_estacoes() && s.0 != problema.objetivo
            && b.custos_g.contains_key(s)
}

/// What holds of the node at hand in each state of the state machine: while
/// it waits, no node of the frontier has a lower f; it is tested against
/// the goal before it is tested against the explored states; and the state
/// being expanded is explored and has the cost of the node as its best.
pub open spec fn inv_no_atual(problema: Problema, b: Busca) -> bool {
    let no = b.no_atual->0;
    &&& aguardando(b.estado_atual) ==> forall|i: int|
        0 <= i < b.fronteira.len() ==> no.custo_f <= (#[trigger] b.fronteira[i]).custo_f
    &&& b.estado_atual is VerificandoSeJaExplorado ==> no.id_estacao != problema.objetivo
    &&& b.estado_atual is CaminhoEncontrado ==> no.id_estacao == problema.objetivo
    &&& em_expansao(b.estado_atual) ==> b.explorados.contains(no.chave()) && b.custos_g.contains_key(
        no.chave(),
    ) && b.custos_g[no.chave()] == no.custo_g
}

/// Whether connection `j` out of `anterior` leads to `chave` and accounts
/// for the difference of their best costs.
pub open spec fn trecho_explica(grafo: GrafoMetro, custos: Map<Chave, int>, anterior: Chave, j: int, chave: Chave) -> bool {
    let conexao = grafo.conexoes_de(anterior.0)[j];
    &&& 0 <= j < grafo.conexoes_de(anterior.0).len()
    &&& chave_de_chegada(conexao) == chave
    &&& custos[chave] == custos[anterior] + conexao.tempo_minutos + custo_baldeacao(
        anterior.1,
        conexao.cor_linha,
    )
}

/// Whether the back-link of `chave` is explained: it names the line by
/// which `chave` is reached, it comes from an explored state, and some
/// connection out of that state leads to `chave` at the best cost of `chave`.
pub open spec fn elo_justificado(
    grafo: GrafoMetro,
    predecessores: Map<Chave, Predecessor>,
    explorados: Set<Chave>,
    custos: Map<Chave, int>,
    chave: Chave,
) -> bool {
    let elo = predecessores[chave];
    let anterior: Chave = (elo.0, elo.1);
    &&& chave.1 == Some(elo.2)
    &&& explorados.contains(anterior)
    &&& custos.contains_key(chave)
    &&& custos.contains_key(anterior)
    &&& exists|j: int| #[trigger] trecho_explica(grafo, custos, anterior, j, chave)
}

/// Every back-link is explained.
pub open spec fn inv_elos(grafo: GrafoMetro, b: Busca) -> bool {
    forall|chave: Chave| #[trigger]
        b.predecessores.contains_key(chave) ==> elo_justificado(
            grafo,
            b.predecessores,
            b.explorados,
            b.custos_g,
            chave,
        )
}

/// Whether the back-links lead from `chave` to `origem` along the stations
/// of `caminho`, taken from its end to its start.
pub open spec fn trilha(
    predecessores: Map<Chave, Predecessor>,
    origem: Chave,
    chave: Chave,
    caminho: Seq<int>,
) -> bool
    decreases caminho.len(),
{
    if caminho.len() == 0 {
        false
    } else if chave == origem {
        caminho.len() == 1 && caminho[0] == chave.0
    } else {
        &&& caminho.len() >= 2
        &&& caminho.last() == chave.0
        &&& elo_utilizavel(predecessores, chave)
        &&& trilha(
            predecessores,
            origem,
            (predecessores[chave].0, predecessores[chave].1),
            caminho.drop_last(),
        )
    }
}

/// The back-links of a candidate that carries the best cost of its state,
/// and those of the node being expanded, lead to the origin along the path
/// of the node.
pub open spec fn inv_trilhas(problema: Problema, b: Busca) -> bool {
    &&& forall|no: No| #[trigger]
        pendente(b, no) && no.custo_g == b.custos_g[no.chave()] ==> trilha(
            b.predecessores,
            problema.origem(),
            no.chave(),
            no.caminho,
        )
    &&& em_expansao(b.estado_atual) ==> trilha(
        b.predecessores,
        problema.origem(),
        b.no_atual->0.chave(),
        b.no_atual->0.caminho,
    )
}

/// The invariant of the search.
pub open spec fn invariante_base(grafo: GrafoMetro, problema: Problema, b: Busca) -> bool {
    &&& busca_bem_formada(grafo, problema, b)
    &&& inv_origem(problema, b)
    &&& inv_custos(b)
    &&& inv_melhor_custo(b)
    &&& inv_explorados(grafo, problema, b)
    &&& inv_no_atual(problema, b)
    &&& inv_elos(grafo, b)
    &&& inv_trilhas(problema, b)
}

/// The initial search satisfies the invariant.
pub proof fn lema_base_inicial(grafo: GrafoMetro, problema: Problema)
    requires
        grafo.bem_formado(),
        problema.valido(grafo),
    ensures
        invariante_base(grafo, problema, inicial(grafo, problema)),
{
    let b = inicial(grafo, problema);
    let no = b.fronteira[0];
    lema_heuristica_limitada(grafo, problema.inicio, problema.objetivo);
    assert(pendente(b, no));
    assert forall|outro: No| #[trigger] pendente(b, outro) implies outro == no by {
        let i = choose|i: int| 0 <= i < b.fronteira.len() && b.fronteira[i] == outro;
    }
    assert(trilha(b.predecessores, problema.origem(), no.chave(), no.caminho));
}

// ---------------------------------------------------------------------------
// Steps keep the invariant
// ---------------------------------------------------------------------------
/// A node is in a sequence exactly if it is the one at `i` or it is in the
/// sequence without the one at `i`.
pub proof fn lema_candidatos_apos_retirada(fronteira: Seq<No>, i: int, no: No)
    requires
        0 <= i < fronteira.len(),
    ensures
        fronteira.contains(no) <==> (fronteira.remove(i).contains(no) || fronteira[i] == no),
{
    let resto = fronteira.remove(i);
    if fronteira.contains(no) {
        let j = choose|j: int| 0 <= j < fronteira.len() && fronteira[j] == no;
        if j < i {
            assert(resto[j] == no);
        } else if j > i {
            assert(resto[j - 1] == no);
        }
    }
    if resto.contains(no) {
        let j = choose|j: int| 0 <= j < resto.len() && resto[j] == no;
        if j < i {
            assert(fronteira[j] == no);
        } else {
            assert(fronteira[j + 1] == no);
        }
    }
}

/// A new back-link for a state that is not explored leaves the back-links
/// from every other state to the origin as they were.
proof fn lema_trilha_com_novo_elo(
    grafo: GrafoMetro,
    b: Busca,
    origem: Chave,
    chave: Chave,
    caminho: Seq<int>,
    nova: Chave,
    elo: Predecessor,
)
    requires
        inv_elos(grafo, b),
        trilha(b.predecessores, origem, chave, caminho),
        chave != nova,
        !b.explorados.contains(nova),
    ensures
        trilha(b.predecessores.insert(nova, elo), origem, chave, caminho),
    decreases caminho.len(),
{
    if chave != origem {
        let anterior: Chave = (b.predecessores[chave].0, b.predecessores[chave].1);
        assert(b.predecessores.contains_key(chave));
        assert(elo_justificado(grafo, b.predecessores, b.explorados, b.custos_g, chave));
        lema_trilha_com_novo_elo(grafo, b, origem, anterior, caminho.drop_last(), nova, elo);
    }
}

/// A search with the same candidates, explored states, best costs and
/// back-links as one that satisfies the invariant, and which is not in the
/// middle of an expansion, satisfies what the invariant says of those.
proof fn lema_base_mesmos_candidatos(grafo: GrafoMetro, problema: Problema, b: Busca, b2: Busca)
    requires
        invariante_base(grafo, problema, b),
        b2.explorados == b.explorados,
        b2.custos_g == b.custos_g,
        b2.predecessores == b.predecessores,
        forall|no: No| pendente(b2, no) == pendente(b, no),
        !em_expansao(b2.estado_atual),
    ensures
        inv_origem(problema, b2),
        inv_custos(b2),
        inv_melhor_custo(b2),
        inv_explorados(grafo, problema, b2),
        inv_elos(grafo, b2),
        inv_trilhas(problema, b2),
{
    assert forall|no: No| #[trigger] pendente(b2, no) implies custo_conhecido(
        b2,
        no.chave(),
        no.custo_g,
    ) by {
        assert(pendente(b, no));
    }
    assert forall|chave: Chave|
        #![trigger b2.custos_g.contains_key(chave)]
        b2.custos_g.contains_key(chave) && !b2.explorados.contains(chave) implies exists|no: No| #[trigger]
        pendente(b2, no) && no.chave() == chave && no.custo_g == b2.custos_g[chave] by {
        assert(b.custos_g.contains_key(chave));
        let no = choose|no: No| #[trigger]
            pendente(b, no) && no.chave() == chave && no.custo_g == b.custos_g[chave];
        assert(pendente(b2, no));
    }
    assert forall|no: No| #[trigger]
        pendente(b2, no) && no.custo_g == b2.custos_g[no.chave()] implies trilha(
        b2.predecessores,
        problema.origem(),
        no.chave(),
        no.caminho,
    ) by {
        assert(pendente(b, no));
    }
}

proof fn lema_base_selecionar(grafo: GrafoMetro, problema: Problema, b: Busca)
    requires
        grafo.bem_formado(),
        problema.valido(grafo),
        invariante_base(grafo, problema, b),
        b.estado_atual is SelecionandoNoDaFronteira,
    ensures
        invariante_base(grafo, problema, passo(grafo, problema, b).0),
{
    let b2 = passo(grafo, problema, b).0;
    lema_passo_bem_formada(grafo, problema, b);
    if b.fronteira.len() == 0 {
        assert forall|no: No| pendente(b2, no) == pendente(b, no) by {}
        lema_base_mesmos_candidatos(grafo, problema, b, b2);
    } else {
        let i = indice_do_proximo(b.fronteira);
        lema_indice_do_proximo(b.fronteira);
        assert forall|no: No| pendente(b2, no) == pendente(b, no) by {
            lema_candidatos_apos_retirada(b.fronteira, i, no);
        }
        lema_base_mesmos_candidatos(grafo, problema, b, b2);
        assert forall|k: int| 0 <= k < b2.fronteira.len() implies b2.no_atual->0.custo_f <= (
        #[trigger] b2.fronteira[k]).custo_f by {
            if k < i {
                assert(b2.fronteira[k] == b.fronteira[k]);
                assert(!tem_prioridade(b.fronteira[k], b.fronteira[i]));
            } else {
                assert(b2.fronteira[k] == b.fronteira[k + 1]);
                assert(!tem_prioridade(b.fronteira[k + 1], b.fronteira[i]));
            }
        }
    }
}

proof fn lema_base_sem_mudanca(grafo: GrafoMetro, problema: Problema, b: Busca)
    requires
        grafo.bem_formado(),
        problema.valido(grafo),
        invariante_base(grafo, problema, b),
        b.estado_atual is Inicializado || b.estado_atual is VerificandoObjetivo
            || b.estado_atual is FinalizandoExpansao || b.estado_atual is CaminhoEncontrado
            || b.estado_atual is SemCaminho,
    ensures
        invariante_base(grafo, problema, passo(grafo, problema, b).0),
{
    let b2 = passo(grafo, problema, b).0;
    lema_passo_bem_formada(grafo, problema, b);
    assert forall|no: No| pendente(b2, no) == pendente(b, no) by {}
    lema_base_mesmos_candidatos(grafo, problema, b, b2);
    if b.estado_atual is VerificandoObjetivo {
        assert forall|k: int| 0 <= k < b2.fronteira.len() implies b2.no_atual->0.custo_f <= (
        #[trigger] b2.fronteira[k]).custo_f by {
            assert(b2.fronteira[k] == b.fronteira[k]);
        }
    }
}

/// The node taken out of the frontier, where its state is not explored,
/// carries the best cost known for its state.
pub proof fn lema_no_atual_tem_melhor_custo(grafo: GrafoMetro, problema: Problema, b: Busca)
    requires
        invariante_base(grafo, problema, b),
        aguardando(b.estado_atual),
        !b.explorados.contains(b.no_atual->0.chave()),
    ensures
        b.custos_g.contains_key(b.no_atual->0.chave()),
        b.custos_g[b.no_atual->0.chave()] == b.no_atual->0.custo_g,
{
    let atual = b.no_atual->0;
    let chave = atual.chave();
    assert(pendente(b, atual));
    assert(no_bem_formado(grafo, problema, atual));
    let no = choose|no: No| #[trigger]
        pendente(b, no) && no.chave() == chave && no.custo_g == b.custos_g[chave];
    if b.fronteira.contains(no) {
        let i = choose|i: int| 0 <= i < b.fronteira.len() && b.fronteira[i] == no;
        assert(no_bem_formado(grafo, problema, b.fronteira[i]));
        assert(atual.custo_f <= b.fronteira[i].custo_f);
    }
}

proof fn lema_base_verificar_explorado(grafo: GrafoMetro, problema: Problema, b: Busca)
    requires
        grafo.bem_formado(),
        problema.valido(grafo),
        invariante_base(grafo, problema, b),
        b.estado_atual is VerificandoSeJaExplorado,
    ensures
        invariante_base(grafo, problema, passo(grafo, problema, b).0),
{
    let b2 = passo(grafo, problema, b).0;
    let atual = b.no_atual->0;
    let chave_atual = atual.chave();
    lema_passo_bem_formada(grafo, problema, b);
    assert(pendente(b, atual));
    assert(no_bem_formado(grafo, problema, atual));
    assert(b2.predecessores == b.predecessores);
    assert(b2.custos_g == b.custos_g);
    assert forall|no: No| pendente(b2, no) == b.fronteira.contains(no) by {}
    assert forall|no: No| #[trigger] pendente(b2, no) implies custo_conhecido(
        b2,
        no.chave(),
        no.custo_g,
    ) by {
        assert(pendente(b, no));
    }
    assert forall|no: No| #[trigger]
        pendente(b2, no) && no.custo_g == b2.custos_g[no.chave()] implies trilha(
        b2.predecessores,
        problema.origem(),
        no.chave(),
        no.caminho,
    ) by {
        assert(pendente(b, no));
    }
    assert forall|chave: Chave|
        #![trigger b2.custos_g.contains_key(chave)]
        b2.custos_g.contains_key(chave) && !b2.explorados.contains(chave) implies exists|no: No| #[trigger]
        pendente(b2, no) && no.chave() == chave && no.custo_g == b2.custos_g[chave] by {
        assert(b.custos_g.contains_key(chave));
        assert(!b.explorados.contains(chave));
        let no = choose|no: No| #[trigger]
            pendente(b, no) && no.chave() == chave && no.custo_g == b.custos_g[chave];
        assert(pendente(b2, no));
    }
    assert forall|chave: Chave| #[trigger] b2.predecessores.contains_key(chave) implies elo_justificado(
        grafo,
        b2.predecessores,
        b2.explorados,
        b2.custos_g,
        chave,
    ) by {
        assert(elo_justificado(grafo, b.predecessores, b.explorados, b.custos_g, chave));
    }
    if !b.explorados.contains(chave_atual) {
        lema_no_atual_tem_melhor_custo(grafo, problema, b);
        assert forall|s: Chave| #[trigger] b2.explorados.contains(s) implies 0 <= s.0
            < grafo.numero_estacoes() && s.0 != problema.objetivo && b2.custos_g.contains_key(s) by {
            if s != chave_atual {
                assert(b.explorados.contains(s));
            }
        }
    }
}

/// Where the evaluation of a connection leaves the best costs and the
/// frontier as they are, it leaves the invariant standing.
proof fn lema_base_vizinho_sem_melhora(grafo: GrafoMetro, problema: Problema, b: Busca)
    requires
        grafo.bem_formado(),
        problema.valido(grafo),
        invariante_base(grafo, problema, b),
        b.estado_atual is AvaliandoVizinho,
        passo(grafo, problema, b).0.custos_g == b.custos_g,
        passo(grafo, problema, b).0.fronteira == b.fronteira,
    ensures
        invariante_base(grafo, problema, passo(grafo, problema, b).0),
        passo(grafo, problema, b).0.predecessores == b.predecessores,
        passo(grafo, problema, b).0.explorados == b.explorados,
        passo(grafo, problema, b).0.no_atual == b.no_atual,
        em_expansao(passo(grafo, problema, b).0.estado_atual),
{
    let b2 = passo(grafo, problema, b).0;
    let atual = b.no_atual->0;
    lema_passo_bem_formada(grafo, problema, b);
    grafo.lema_numero_de_conexoes(atual.id_estacao);
    assert(b2.explorados == b.explorados);
    assert(b2.no_atual == b.no_atual);
    assert(b2.predecessores == b.predecessores) by {
        let indice = b.estado_atual->indice_vizinho as int;
        let conexao = grafo.conexoes_de(atual.id_estacao)[indice];
        let chave_vizinho = chave_de_chegada(conexao);
        let custo_g_novo = atual.custo_g + conexao.tempo_minutos + custo_baldeacao(
            atual.linha_chegada,
            conexao.cor_linha,
        );
        if !b.explorados.contains(chave_vizinho) && !custo_conhecido(b, chave_vizinho, custo_g_novo) {
            assert(b2.fronteira.len() == b.fronteira.len() + 1);
        }
    }
    assert forall|no: No| pendente(b2, no) == pendente(b, no) by {}
    assert forall|no: No| #[trigger] pendente(b2, no) implies custo_conhecido(
        b2,
        no.chave(),
        no.custo_g,
    ) by {
        assert(pendente(b, no));
    }
    assert forall|chave: Chave|
        #![trigger b2.custos_g.contains_key(chave)]
        b2.custos_g.contains_key(chave) && !b2.explorados.contains(chave) implies exists|no: No| #[trigger]
        pendente(b2, no) && no.chave() == chave && no.custo_g == b2.custos_g[chave] by {
        assert(b.custos_g.contains_key(chave));
        let no = choose|no: No| #[trigger]
            pendente(b, no) && no.chave() == chave && no.custo_g == b.custos_g[chave];
        assert(pendente(b2, no));
    }
    assert forall|no: No| #[trigger]
        pendente(b2, no) && no.custo_g == b2.custos_g[no.chave()] implies trilha(
        b2.predecessores,
        problema.origem(),
        no.chave(),
        no.caminho,
    ) by {
        assert(pendente(b, no));
    }
}

/// What the evaluation of a connection that improves a best cost changes:
/// the state that the connection leads to gets the new cost and a back-link
/// to the state being expanded, and a node for it enters the frontier.
pub proof fn lema_efeito_da_melhora(grafo: GrafoMetro, problema: Problema, b: Busca)
    requires
        grafo.bem_formado(),
        problema.valido(grafo),
        invariante_base(grafo, problema, b),
        b.estado_atual is AvaliandoVizinho,
        !(passo(grafo, problema, b).0.custos_g == b.custos_g && passo(grafo, problema, b).0.fronteira
            == b.fronteira),
    ensures
        ({
            let b2 = passo(grafo, problema, b).0;
            let atual = b.no_atual->0;
            let indice = b.estado_atual->indice_vizinho as int;
            let conexao = grafo.conexoes_de(atual.id_estacao)[indice];
            let chave_vizinho = chave_de_chegada(conexao);
            let custo_g_novo = atual.custo_g + conexao.tempo_minutos + custo_baldeacao(
                atual.linha_chegada,
                conexao.cor_linha,
            );
            let novo = b2.fronteira.last();
            &&& 0 <= indice < grafo.conexoes_de(atual.id_estacao).len()
            &&& !b.explorados.contains(chave_vizinho)
            &&& !custo_conhecido(b, chave_vizinho, custo_g_novo)
            &&& chave_vizinho != atual.chave()
            &&& chave_vizinho != problema.origem()
            &&& b2.fronteira == b.fronteira.push(novo)
            &&& novo.chave() == chave_vizinho
            &&& novo.custo_g == custo_g_novo
            &&& novo.caminho == atual.caminho.push(chave_vizinho.0)
            &&& no_bem_formado(grafo, problema, novo)
            &&& b2.custos_g == b.custos_g.insert(chave_vizinho, custo_g_novo)
            &&& b2.predecessores == b.predecessores.insert(
                chave_vizinho,
                (atual.id_estacao, atual.linha_chegada, conexao.cor_linha),
            )
            &&& b2.explorados == b.explorados
            &&& b2.no_atual == b.no_atual
            &&& em_expansao(b2.estado_atual)
            &&& forall|no: No| pendente(b2, no) == (pendente(b, no) || no == novo)
        }),
{
    let b2 = passo(grafo, problema, b).0;
    let atual = b.no_atual->0;
    let indice = b.estado_atual->indice_vizinho as int;
    let conexao = grafo.conexoes_de(atual.id_estacao)[indice];
    let chave_vizinho = chave_de_chegada(conexao);
    let novo = b2.fronteira.last();
    lema_passo_bem_formada(grafo, problema, b);
    grafo.lema_numero_de_conexoes(atual.id_estacao);
    assert(no_bem_formado(grafo, problema, atual));
    assert(conexao_bem_formada(conexao, grafo.numero_estacoes()));
    assert(b2.fronteira == b.fronteira.push(novo));
    assert(no_bem_formado(grafo, problema, b2.fronteira[b2.fronteira.len() - 1]));
    assert forall|no: No| pendente(b2, no) == (pendente(b, no) || no == novo) by {
        if b.fronteira.contains(no) {
            let i = choose|i: int| 0 <= i < b.fronteira.len() && b.fronteira[i] == no;
            assert(b2.fronteira[i] == no);
        }
        if b2.fronteira.contains(no) {
            let i = choose|i: int| 0 <= i < b2.fronteira.len() && b2.fronteira[i] == no;
            if i < b.fronteira.len() {
                assert(b.fronteira[i] == no);
            }
        }
        assert(b2.fronteira[b2.fronteira.len() - 1] == novo);
    }
}

proof fn lema_base_vizinho_com_melhora(grafo: GrafoMetro, problema: Problema, b: Busca)
    requires
        grafo.bem_formado(),
        problema.valido(grafo),
        invariante_base(grafo, problema, b),
        b.estado_atual is AvaliandoVizinho,
        !(passo(grafo, problema, b).0.custos_g == b.custos_g && passo(grafo, problema, b).0.fronteira
            == b.fronteira),
    ensures
        invariante_base(grafo, problema, passo(grafo, problema, b).0),
{
    let b2 = passo(grafo, problema, b).0;
    let origem = problema.origem();
    let atual = b.no_atual->0;
    let chave_atual = atual.chave();
    let indice = b.estado_atual->indice_vizinho as int;
    let conexao = grafo.conexoes_de(atual.id_estacao)[indice];
    let chave_vizinho = chave_de_chegada(conexao);
    let custo_g_novo = atual.custo_g + conexao.tempo_minutos + custo_baldeacao(
        atual.linha_chegada,
        conexao.cor_linha,
    );
    let elo: Predecessor = (atual.id_estacao, atual.linha_chegada, conexao.cor_linha);
    let novo = b2.fronteira.last();
    lema_passo_bem_formada(grafo, problema, b);
    lema_efeito_da_melhora(grafo, problema, b);
    assert forall|no: No| #[trigger] pendente(b2, no) implies custo_conhecido(
        b2,
        no.chave(),
        no.custo_g,
    ) by {
        if no != novo {
            assert(pendente(b, no));
        }
    }
    assert forall|chave: Chave|
        #![trigger b2.custos_g.contains_key(chave)]
        b2.custos_g.contains_key(chave) && !b2.explorados.contains(chave) implies exists|no: No| #[trigger]
        pendente(b2, no) && no.chave() == chave && no.custo_g == b2.custos_g[chave] by {
        if chave == chave_vizinho {
            assert(pendente(b2, novo));
        } else {
            assert(b.custos_g.contains_key(chave));
            let no = choose|no: No| #[trigger]
                pendente(b, no) && no.chave() == chave && no.custo_g == b.custos_g[chave];
            assert(pendente(b2, no));
        }
    }
    assert forall|s: Chave| #[trigger] b2.explorados.contains(s) implies 0 <= s.0
        < grafo.numero_estacoes() && s.0 != problema.objetivo && b2.custos_g.contains_key(s) by {
        assert(b.explorados.contains(s));
    }
    assert forall|chave: Chave| #[trigger] b2.predecessores.contains_key(chave) implies elo_justificado(
        grafo,
        b2.predecessores,
        b2.explorados,
        b2.custos_g,
        chave,
    ) by {
        if chave == chave_vizinho {
            assert(b.explorados.contains(chave_atual));
            assert(trecho_explica(grafo, b2.custos_g, chave_atual, indice, chave_vizinho));
        } else {
            assert(b.predecessores.contains_key(chave));
            assert(elo_justificado(grafo, b.predecessores, b.explorados, b.custos_g, chave));
            let anterior: Chave = (b.predecessores[chave].0, b.predecessores[chave].1);
            let j = choose|j: int| #[trigger] trecho_explica(grafo, b.custos_g, anterior, j, chave);
            assert(trecho_explica(grafo, b2.custos_g, anterior, j, chave));
        }
    }
    lema_trilha_com_novo_elo(grafo, b, origem, chave_atual, atual.caminho, chave_vizinho, elo);
    assert(trilha(b2.predecessores, origem, chave_vizinho, novo.caminho)) by {
        assert(novo.caminho.drop_last() =~= atual.caminho);
        assert(elo_utilizavel(b2.predecessores, chave_vizinho));
    }
    assert forall|no: No| #[trigger]
        pendente(b2, no) && no.custo_g == b2.custos_g[no.chave()] implies trilha(
        b2.predecessores,
        origem,
        no.chave(),
        no.caminho,
    ) by {
        if no != novo {
            assert(pendente(b, no));
            assert(custo_conhecido(b, no.chave(), no.custo_g));
            assert(no.chave() != chave_vizinho);
            lema_trilha_com_novo_elo(grafo, b, origem, no.chave(), no.caminho, chave_vizinho, elo);
        }
    }
}

/// A step keeps the invariant.
pub proof fn lema_passo_base(grafo: GrafoMetro, problema: Problema, b: Busca)
    requires
        grafo.bem_formado(),
        problema.valido(grafo),
        invariante_base(grafo, problema, b),
    ensures
        invariante_base(grafo, problema, passo(grafo, problema, b).0),
{
    let b2 = passo(grafo, problema, b).0;
    match b.estado_atual {
        EstadoAlgoritmo::SelecionandoNoDaFronteira => {
            lema_base_selecionar(grafo, problema, b);
        },
        EstadoAlgoritmo::VerificandoSeJaExplorado => {
            lema_base_verificar_explorado(grafo, problema, b);
        },
        EstadoAlgoritmo::AvaliandoVizinho { indice_vizinho } => {
            if b2.custos_g == b.custos_g && b2.fronteira == b.fronteira {
                lema_base_vizinho_sem_melhora(grafo, problema, b);
            } else {
                lema_base_vizinho_com_melhora(grafo, problema, b);
            }
        },
        _ => {
            lema_base_sem_mudanca(grafo, problema, b);
        },
    }
}

/// Every search reached from the initial one satisfies the invariant.
pub proof fn lema_alcancavel_base(grafo: GrafoMetro, problema: Problema, n: nat)
    requires
        grafo.bem_formado(),
        problema.valido(grafo),
    ensures
        invariante_base(grafo, problema, apos(grafo, problema, inicial(grafo, problema), n)),
    decreases n,
{
    if n == 0 {
        lema_base_inicial(grafo, problema);
    } else {
        lema_alcancavel_base(grafo, problema, (n - 1) as nat);
        lema_passo_base(grafo, problema, apos(grafo, problema, inicial(grafo, problema), (n - 1) as nat));
    }
}

// ---------------------------------------------------------------------------
// The itinerary
// ---------------------------------------------------------------------------
/// Whether an itinerary is right for a problem: its back-links reached the
/// origin; its path is the sequence of states of a route of the graph that
/// leads from the origin to a state at the goal in the total time of the
/// itinerary; and its transfers are the changes of line along the path.
pub open spec fn itinerario_correto(grafo: GrafoMetro, problema: Problema, info: Itinerario) -> bool {
    &&& info.cadeia_completa
    &&& info.estacoes_do_caminho.len() >= 1
    &&& info.estacoes_do_caminho[0] == problema.origem()
    &&& info.estacoes_do_caminho.last().0 == problema.objetivo
    &&& info.baldeacoes == contar_trocas(info.estacoes_do_caminho)
    &&& exists|rota: Rota| #[trigger]
        leva_a(grafo, problema.origem(), rota, info.estacoes_do_caminho.last(), info.tempo_total)
            && chaves_da_rota(grafo, problema.origem(), rota) == info.estacoes_do_caminho
}

/// Back-links that lead to the origin along a path make a chain as long as
/// the path, from the state they start at to the origin, whatever number of
/// links the chain may have beyond those of the path.
pub proof fn lema_cadeia_da_trilha(
    predecessores: Map<Chave, Predecessor>,
    origem: Chave,
    chave: Chave,
    caminho: Seq<int>,
    passos: nat,
)
    requires
        trilha(predecessores, origem, chave, caminho),
        passos >= caminho.len() - 1,
    ensures
        cadeia(predecessores, origem, chave, passos) == cadeia(
            predecessores,
            origem,
            chave,
            (caminho.len() - 1) as nat,
        ),
        cadeia(predecessores, origem, chave, passos).len() == caminho.len(),
        cadeia(predecessores, origem, chave, passos)[0] == chave,
        cadeia(predecessores, origem, chave, passos).last() == origem,
    decreases caminho.len(),
{
    if chave != origem {
        let anterior: Chave = (predecessores[chave].0, predecessores[chave].1);
        lema_cadeia_da_trilha(predecessores, origem, anterior, caminho.drop_last(), (passos - 1) as nat);
        lema_cadeia_da_trilha(
            predecessores,
            origem,
            anterior,
            caminho.drop_last(),
            (caminho.len() - 2) as nat,
        );
    }
}

/// The route that the back-links from `chave` stand for: it leads from the
/// origin to `chave` at the best cost of `chave`, and passes the states of
/// the chain of back-links, the origin first.
pub proof fn lema_rota_da_trilha(
    grafo: GrafoMetro,
    problema: Problema,
    b: Busca,
    chave: Chave,
    caminho: Seq<int>,
) -> (rota: Rota)
    requires
        problema.valido(grafo),
        inv_origem(problema, b),
        inv_elos(grafo, b),
        trilha(b.predecessores, problema.origem(), chave, caminho),
    ensures
        leva_a(grafo, problema.origem(), rota, chave, b.custos_g[chave]),
        chaves_da_rota(grafo, problema.origem(), rota) == cadeia(
            b.predecessores,
            problema.origem(),
            chave,
            (caminho.len() - 1) as nat,
        ).reverse(),
    decreases caminho.len(),
{
    let origem = problema.origem();
    let elos = cadeia(b.predecessores, origem, chave, (caminho.len() - 1) as nat);
    if chave == origem {
        let rota = Seq::<int>::empty();
        assert(elos =~= seq![origem]);
        assert(elos.reverse() =~= seq![origem]);
        rota
    } else {
        let anterior: Chave = (b.predecessores[chave].0, b.predecessores[chave].1);
        let antes = lema_rota_da_trilha(grafo, problema, b, anterior, caminho.drop_last());
        assert(b.predecessores.contains_key(chave));
        assert(elo_justificado(grafo, b.predecessores, b.explorados, b.custos_g, chave));
        let j = choose|j: int| #[trigger] trecho_explica(grafo, b.custos_g, anterior, j, chave);
        lema_estender_rota(grafo, origem, antes, j);
        let rota = antes.push(j);
        let elos_antes = cadeia(b.predecessores, origem, anterior, (caminho.len() - 2) as nat);
        lema_cadeia_da_trilha(
            b.predecessores,
            origem,
            anterior,
            caminho.drop_last(),
            (caminho.len() - 2) as nat,
        );
        assert(elos =~= seq![chave] + elos_antes);
        assert(rota.drop_last() =~= antes);
        assert(chaves_da_rota(grafo, origem, rota) == elos_antes.reverse().push(chave));
        assert(elos_antes.reverse().push(chave) =~= elos.reverse());
        rota
    }
}

/// When the goal is found, the itinerary rebuilt from the back-links is
/// right, given links enough for the path of the node that ended the search.
pub proof fn lema_itinerario_correto(grafo: GrafoMetro, problema: Problema, b: Busca, passos: nat)
    requires
        grafo.bem_formado(),
        problema.valido(grafo),
        invariante_base(grafo, problema, b),
        b.estado_atual is CaminhoEncontrado,
        passos >= b.no_atual->0.caminho.len() - 1,
    ensures
        itinerario_correto(
            grafo,
            problema,
            reconstruir(b.predecessores, problema.origem(), b.no_atual->0, passos),
        ),
{
    let origem = problema.origem();
    let atual = b.no_atual->0;
    let info = reconstruir(b.predecessores, origem, atual, passos);
    assert(pendente(b, atual));
    assert(!b.explorados.contains(atual.chave()));
    lema_no_atual_tem_melhor_custo(grafo, problema, b);
    assert(trilha(b.predecessores, origem, atual.chave(), atual.caminho));
    lema_cadeia_da_trilha(b.predecessores, origem, atual.chave(), atual.caminho, passos);
    let rota = lema_rota_da_trilha(grafo, problema, b, atual.chave(), atual.caminho);
    let elos = cadeia(b.predecessores, origem, atual.chave(), passos);
    assert(info.estacoes_do_caminho == elos.reverse());
    assert(elos.reverse()[0] == elos[elos.len() - 1]);
    assert(elos.reverse().last() == elos[0]);
    assert(leva_a(grafo, origem, rota, info.estacoes_do_caminho.last(), info.tempo_total));
}

} // verus!
