//! Why the result of the search is the best there is. Under a consistent
//! heuristic the states are explored in the order of their estimated totals,
//! so every connection out of an explored state is accounted for in the best
//! cost of the state that it leads to, and the cost of the node that ends the
//! search is the least that any route from the origin to the goal station
//! can have.

use crate::algoritmo_a_estrela::{em_expansao, EstadoAlgoritmo};
use crate::grafo_metro::{conexao_bem_formada, GrafoMetro};
use crate::invariantes::{
    custo_conhecido, invariante_base, lema_base_inicial, lema_candidatos_apos_retirada,
    lema_efeito_da_melhora, lema_no_atual_tem_melhor_custo, lema_passo_base, lema_rota_da_trilha, pendente,
};
use crate::modelo::{
    apos, chave_de_chegada, custo_baldeacao, indice_do_proximo, inicial, lema_indice_do_proximo,
    no_bem_formado, passo, Busca, Chave, No, Problema,
};
use crate::rotas::{
    alcanca, custo_da_rota, destino, heuristica_consistente, lema_estimativa_ao_longo_da_rota, leva_a,
    rota_valida, Rota,
};
use vstd::prelude::*;

verus! {

// ---------------------------------------------------------------------------
// The invariant
// ---------------------------------------------------------------------------
/// How many of the connections out of `chave` were evaluated, once `chave`
/// is explored: all of them, but for the state that is being expanded.
pub open spec fn avaliadas(grafo: GrafoMetro, b: Busca, chave: Chave) -> int {
    if b.estado_atual is AvaliandoVizinho && b.no_atual->0.chave() == chave {
        b.estado_atual->indice_vizinho as int
    } else {
        grafo.conexoes_de(chave.0).len() as int
    }
}

/// Every evaluated connection out of an explored state is accounted for in
/// the best cost of the state that it leads to.
pub open spec fn inv_conexoes(grafo: GrafoMetro, b: Busca) -> bool {
    forall|s: Chave, j: int|
        #![trigger b.explorados.contains(s), grafo.conexoes_de(s.0)[j]]
        b.explorados.contains(s) && 0 <= j < avaliadas(grafo, b, s) ==> custo_conhecido(
            b,
            chave_de_chegada(grafo.conexoes_de(s.0)[j]),
            b.custos_g[s] + grafo.conexoes_de(s.0)[j].tempo_minutos + custo_baldeacao(
                s.1,
                grafo.conexoes_de(s.0)[j].cor_linha,
            ),
        )
}

/// No explored state has a greater estimate of the total than a candidate has.
pub open spec fn inv_ordem(grafo: GrafoMetro, problema: Problema, b: Busca) -> bool {
    forall|s: Chave, no: No|
        #![trigger b.explorados.contains(s), pendente(b, no)]
        b.explorados.contains(s) && pendente(b, no) ==> b.custos_g[s] + grafo.heuristica(
            s.0,
            problema.objetivo,
        ) <= no.custo_f
}

/// No explored state has a greater estimate of the total than the node
/// being expanded has.
pub open spec fn inv_ordem_atual(grafo: GrafoMetro, problema: Problema, b: Busca) -> bool {
    em_expansao(b.estado_atual) ==> forall|s: Chave| #[trigger]
        b.explorados.contains(s) ==> b.custos_g[s] + grafo.heuristica(s.0, problema.objetivo)
            <= b.no_atual->0.custo_f
}

/// The invariant of the search under a consistent heuristic.
pub open spec fn invariante(grafo: GrafoMetro, problema: Problema, b: Busca) -> bool {
    &&& invariante_base(grafo, problema, b)
    &&& inv_conexoes(grafo, b)
    &&& inv_ordem(grafo, problema, b)
    &&& inv_ordem_atual(grafo, problema, b)
}

/// The initial search satisfies the invariant.
pub proof fn lema_invariante_inicial(grafo: GrafoMetro, problema: Problema)
    requires
        grafo.bem_formado(),
        problema.valido(grafo),
    ensures
        invariante(grafo, problema, inicial(grafo, problema)),
{
    lema_base_inicial(grafo, problema);
}

// ---------------------------------------------------------------------------
// Steps keep the invariant
// ---------------------------------------------------------------------------
/// A search with the same candidates, explored states and best costs as one
/// that satisfies the invariant satisfies what the invariant says of those.
proof fn lema_mesmos_candidatos(grafo: GrafoMetro, problema: Problema, b: Busca, b2: Busca)
    requires
        invariante(grafo, problema, b),
        b2.explorados == b.explorados,
        b2.custos_g == b.custos_g,
        forall|no: No| pendente(b2, no) == pendente(b, no),
        !(b.estado_atual is AvaliandoVizinho),
        !(b2.estado_atual is AvaliandoVizinho),
    ensures
        inv_conexoes(grafo, b2),
        inv_ordem(grafo, problema, b2),
{
    assert forall|s: Chave, j: int|
        #![trigger b2.explorados.contains(s), grafo.conexoes_de(s.0)[j]]
        b2.explorados.contains(s) && 0 <= j < avaliadas(grafo, b2, s) implies custo_conhecido(
        b2,
        chave_de_chegada(grafo.conexoes_de(s.0)[j]),
        b2.custos_g[s] + grafo.conexoes_de(s.0)[j].tempo_minutos + custo_baldeacao(
            s.1,
            grafo.conexoes_de(s.0)[j].cor_linha,
        ),
    ) by {
        assert(b.explorados.contains(s));
    }
    assert forall|s: Chave, no: No|
        #![trigger b2.explorados.contains(s), pendente(b2, no)]
        b2.explorados.contains(s) && pendente(b2, no) implies b2.custos_g[s] + grafo.heuristica(
        s.0,
        problema.objetivo,
    ) <= no.custo_f by {
        assert(b.explorados.contains(s) && pendente(b, no));
    }
}

proof fn lema_invariante_selecionar(grafo: GrafoMetro, problema: Problema, b: Busca)
    requires
        grafo.bem_formado(),
        problema.valido(grafo),
        invariante(grafo, problema, b),
        b.estado_atual is SelecionandoNoDaFronteira,
    ensures
        invariante(grafo, problema, passo(grafo, problema, b).0),
{
    let b2 = passo(grafo, problema, b).0;
    lema_passo_base(grafo, problema, b);
    if b.fronteira.len() == 0 {
        assert forall|no: No| pendente(b2, no) == pendente(b, no) by {}
    } else {
        let i = indice_do_proximo(b.fronteira);
        lema_indice_do_proximo(b.fronteira);
        assert forall|no: No| pendente(b2, no) == pendente(b, no) by {
            lema_candidatos_apos_retirada(b.fronteira, i, no);
        }
    }
    lema_mesmos_candidatos(grafo, problema, b, b2);
}

proof fn lema_invariante_sem_mudanca(grafo: GrafoMetro, problema: Problema, b: Busca)
    requires
        grafo.bem_formado(),
        problema.valido(grafo),
        invariante(grafo, problema, b),
        b.estado_atual is Inicializado || b.estado_atual is VerificandoObjetivo
            || b.estado_atual is FinalizandoExpansao || b.estado_atual is CaminhoEncontrado
            || b.estado_atual is SemCaminho,
    ensures
        invariante(grafo, problema, passo(grafo, problema, b).0),
{
    let b2 = passo(grafo, problema, b).0;
    lema_passo_base(grafo, problema, b);
    assert forall|no: No| pendente(b2, no) == pendente(b, no) by {}
    lema_mesmos_candidatos(grafo, problema, b, b2);
}

proof fn lema_invariante_verificar_explorado(grafo: GrafoMetro, problema: Problema, b: Busca)
    requires
        grafo.bem_formado(),
        problema.valido(grafo),
        invariante(grafo, problema, b),
        b.estado_atual is VerificandoSeJaExplorado,
    ensures
        invariante(grafo, problema, passo(grafo, problema, b).0),
{
    let b2 = passo(grafo, problema, b).0;
    let atual = b.no_atual->0;
    let chave_atual = atual.chave();
    lema_passo_base(grafo, problema, b);
    assert(pendente(b, atual));
    assert(no_bem_formado(grafo, problema, atual));
    assert(b2.custos_g == b.custos_g);
    assert forall|no: No| pendente(b2, no) == b.fronteira.contains(no) by {}
    if b.explorados.contains(chave_atual) {
        assert forall|s: Chave, j: int|
            #![trigger b2.explorados.contains(s), grafo.conexoes_de(s.0)[j]]
            b2.explorados.contains(s) && 0 <= j < avaliadas(grafo, b2, s) implies custo_conhecido(
            b2,
            chave_de_chegada(grafo.conexoes_de(s.0)[j]),
            b2.custos_g[s] + grafo.conexoes_de(s.0)[j].tempo_minutos + custo_baldeacao(
                s.1,
                grafo.conexoes_de(s.0)[j].cor_linha,
            ),
        ) by {
            assert(b.explorados.contains(s));
        }
        assert forall|s: Chave, no: No|
            #![trigger b2.explorados.contains(s), pendente(b2, no)]
            b2.explorados.contains(s) && pendente(b2, no) implies b2.custos_g[s] + grafo.heuristica(
            s.0,
            problema.objetivo,
        ) <= no.custo_f by {
            assert(b.explorados.contains(s) && pendente(b, no));
        }
    } else {
        lema_no_atual_tem_melhor_custo(grafo, problema, b);
        assert forall|s: Chave, j: int|
            #![trigger b2.explorados.contains(s), grafo.conexoes_de(s.0)[j]]
            b2.explorados.contains(s) && 0 <= j < avaliadas(grafo, b2, s) implies custo_conhecido(
            b2,
            chave_de_chegada(grafo.conexoes_de(s.0)[j]),
            b2.custos_g[s] + grafo.conexoes_de(s.0)[j].tempo_minutos + custo_baldeacao(
                s.1,
                grafo.conexoes_de(s.0)[j].cor_linha,
            ),
        ) by {
            if s != chave_atual {
                assert(b.explorados.contains(s));
            }
        }
        assert forall|s: Chave| #[trigger] b2.explorados.contains(s) implies b2.custos_g[s]
            + grafo.heuristica(s.0, problema.objetivo) <= atual.custo_f by {
            if s != chave_atual {
                assert(b.explorados.contains(s) && pendente(b, atual));
            }
        }
        assert forall|s: Chave, no: No|
            #![trigger b2.explorados.contains(s), pendente(b2, no)]
            b2.explorados.contains(s) && pendente(b2, no) implies b2.custos_g[s] + grafo.heuristica(
            s.0,
            problema.objetivo,
        ) <= no.custo_f by {
            if s != chave_atual {
                assert(b.explorados.contains(s) && pendente(b, no));
            } else {
                let i = choose|i: int| 0 <= i < b.fronteira.len() && b.fronteira[i] == no;
                assert(atual.custo_f <= b.fronteira[i].custo_f);
            }
        }
    }
}

/// The connection being evaluated is accounted for where the step leaves the
/// best costs as they are: it leads to an explored state, or to a state whose
/// best cost it does not improve.
proof fn lema_conexao_sem_melhora(grafo: GrafoMetro, problema: Problema, b: Busca, indice: int)
    requires
        grafo.bem_formado(),
        problema.valido(grafo),
        heuristica_consistente(grafo, problema.objetivo),
        invariante(grafo, problema, b),
        b.estado_atual == (EstadoAlgoritmo::AvaliandoVizinho { indice_vizinho: indice as usize }),
        indice == indice as usize,
        passo(grafo, problema, b).0.custos_g == b.custos_g,
    ensures
        custo_conhecido(
            b,
            chave_de_chegada(grafo.conexoes_de(b.no_atual->0.id_estacao)[indice]),
            b.no_atual->0.custo_g + grafo.conexoes_de(b.no_atual->0.id_estacao)[indice].tempo_minutos
                + custo_baldeacao(
                b.no_atual->0.linha_chegada,
                grafo.conexoes_de(b.no_atual->0.id_estacao)[indice].cor_linha,
            ),
        ),
{
    let atual = b.no_atual->0;
    let conexao = grafo.conexoes_de(atual.id_estacao)[indice];
    let chave_vizinho = chave_de_chegada(conexao);
    let custo_g_novo = atual.custo_g + conexao.tempo_minutos + custo_baldeacao(
        atual.linha_chegada,
        conexao.cor_linha,
    );
    assert(no_bem_formado(grafo, problema, atual));
    assert(conexao_bem_formada(conexao, grafo.numero_estacoes()));
    if b.explorados.contains(chave_vizinho) {
        assert(b.custos_g[chave_vizinho] + grafo.heuristica(chave_vizinho.0, problema.objetivo)
            <= atual.custo_f);
        assert(grafo.heuristica(atual.id_estacao, problema.objetivo) <= conexao.tempo_minutos
            + grafo.heuristica(conexao.para_estacao as int, problema.objetivo));
    } else {
        if !(b.custos_g.contains_key(chave_vizinho) && b.custos_g[chave_vizinho] <= custo_g_novo) {
            let depois = b.custos_g.insert(chave_vizinho, custo_g_novo);
            assert(depois.contains_key(chave_vizinho) && depois[chave_vizinho] == custo_g_novo);
            assert(passo(grafo, problema, b).0.custos_g == depois);
        }
    }
}

proof fn lema_invariante_vizinho_sem_melhora(grafo: GrafoMetro, problema: Problema, b: Busca, indice: int)
    requires
        grafo.bem_formado(),
        problema.valido(grafo),
        heuristica_consistente(grafo, problema.objetivo),
        invariante(grafo, problema, b),
        b.estado_atual == (EstadoAlgoritmo::AvaliandoVizinho { indice_vizinho: indice as usize }),
        indice == indice as usize,
        passo(grafo, problema, b).0.custos_g == b.custos_g,
        passo(grafo, problema, b).0.fronteira == b.fronteira,
    ensures
        invariante(grafo, problema, passo(grafo, problema, b).0),
{
    let b2 = passo(grafo, problema, b).0;
    let atual = b.no_atual->0;
    let chave_atual = atual.chave();
    lema_passo_base(grafo, problema, b);
    lema_conexao_sem_melhora(grafo, problema, b, indice);
    grafo.lema_numero_de_conexoes(atual.id_estacao);
    assert(b2.explorados == b.explorados);
    assert(b2.no_atual == b.no_atual);
    assert forall|no: No| pendente(b2, no) == pendente(b, no) by {}
    assert forall|s: Chave, j: int|
        #![trigger b2.explorados.contains(s), grafo.conexoes_de(s.0)[j]]
        b2.explorados.contains(s) && 0 <= j < avaliadas(grafo, b2, s) implies custo_conhecido(
        b2,
        chave_de_chegada(grafo.conexoes_de(s.0)[j]),
        b2.custos_g[s] + grafo.conexoes_de(s.0)[j].tempo_minutos + custo_baldeacao(
            s.1,
            grafo.conexoes_de(s.0)[j].cor_linha,
        ),
    ) by {
        assert(b.explorados.contains(s));
        if s == chave_atual && j == indice {
        } else {
            assert(0 <= j < avaliadas(grafo, b, s));
        }
    }
    assert forall|s: Chave, no: No|
        #![trigger b2.explorados.contains(s), pendente(b2, no)]
        b2.explorados.contains(s) && pendente(b2, no) implies b2.custos_g[s] + grafo.heuristica(
        s.0,
        problema.objetivo,
    ) <= no.custo_f by {
        assert(b.explorados.contains(s) && pendente(b, no));
    }
    assert forall|s: Chave| #[trigger] b2.explorados.contains(s) implies b2.custos_g[s]
        + grafo.heuristica(s.0, problema.objetivo) <= atual.custo_f by {
        assert(b.explorados.contains(s));
    }
}

proof fn lema_invariante_vizinho_com_melhora(grafo: GrafoMetro, problema: Problema, b: Busca, indice: int)
    requires
        grafo.bem_formado(),
        problema.valido(grafo),
        heuristica_consistente(grafo, problema.objetivo),
        invariante(grafo, problema, b),
        b.estado_atual == (EstadoAlgoritmo::AvaliandoVizinho { indice_vizinho: indice as usize }),
        indice == indice as usize,
        !(passo(grafo, problema, b).0.custos_g == b.custos_g && passo(grafo, problema, b).0.fronteira
            == b.fronteira),
    ensures
        invariante(grafo, problema, passo(grafo, problema, b).0),
{
    let b2 = passo(grafo, problema, b).0;
    let atual = b.no_atual->0;
    let chave_atual = atual.chave();
    let conexao = grafo.conexoes_de(atual.id_estacao)[indice];
    let chave_vizinho = chave_de_chegada(conexao);
    let novo = b2.fronteira.last();
    lema_passo_base(grafo, problema, b);
    lema_efeito_da_melhora(grafo, problema, b);
    grafo.lema_numero_de_conexoes(atual.id_estacao);
    assert(no_bem_formado(grafo, problema, atual));
    assert(conexao_bem_formada(conexao, grafo.numero_estacoes()));
    assert(grafo.heuristica(atual.id_estacao, problema.objetivo) <= conexao.tempo_minutos
        + grafo.heuristica(conexao.para_estacao as int, problema.objetivo));
    assert(atual.custo_f <= novo.custo_f);
    assert forall|s: Chave, j: int|
        #![trigger b2.explorados.contains(s), grafo.conexoes_de(s.0)[j]]
        b2.explorados.contains(s) && 0 <= j < avaliadas(grafo, b2, s) implies custo_conhecido(
        b2,
        chave_de_chegada(grafo.conexoes_de(s.0)[j]),
        b2.custos_g[s] + grafo.conexoes_de(s.0)[j].tempo_minutos + custo_baldeacao(
            s.1,
            grafo.conexoes_de(s.0)[j].cor_linha,
        ),
    ) by {
        assert(b.explorados.contains(s));
        assert(b.custos_g.contains_key(s));
        if s == chave_atual && j == indice {
        } else {
            assert(0 <= j < avaliadas(grafo, b, s));
        }
    }
    assert forall|s: Chave, no: No|
        #![trigger b2.explorados.contains(s), pendente(b2, no)]
        b2.explorados.contains(s) && pendente(b2, no) implies b2.custos_g[s] + grafo.heuristica(
        s.0,
        problema.objetivo,
    ) <= no.custo_f by {
        assert(b.explorados.contains(s));
        if no != novo {
            assert(pendente(b, no));
        }
    }
    assert forall|s: Chave| #[trigger] b2.explorados.contains(s) implies b2.custos_g[s]
        + grafo.heuristica(s.0, problema.objetivo) <= atual.custo_f by {
        assert(b.explorados.contains(s));
    }
}

/// A step keeps the invariant.
pub proof fn lema_passo_invariante(grafo: GrafoMetro, problema: Problema, b: Busca)
    requires
        grafo.bem_formado(),
        problema.valido(grafo),
        heuristica_consistente(grafo, problema.objetivo),
        invariante(grafo, problema, b),
    ensures
        invariante(grafo, problema, passo(grafo, problema, b).0),
{
    let b2 = passo(grafo, problema, b).0;
    match b.estado_atual {
        EstadoAlgoritmo::SelecionandoNoDaFronteira => {
            lema_invariante_selecionar(grafo, problema, b);
        },
        EstadoAlgoritmo::VerificandoSeJaExplorado => {
            lema_invariante_verificar_explorado(grafo, problema, b);
        },
        EstadoAlgoritmo::AvaliandoVizinho { indice_vizinho } => {
            if b2.custos_g == b.custos_g && b2.fronteira == b.fronteira {
                lema_invariante_vizinho_sem_melhora(grafo, problema, b, indice_vizinho as int);
            } else {
                lema_invariante_vizinho_com_melhora(grafo, problema, b, indice_vizinho as int);
            }
        },
        _ => {
            lema_invariante_sem_mudanca(grafo, problema, b);
        },
    }
}

/// Every search reached from the initial one satisfies the invariant.
pub proof fn lema_alcancavel_invariante(grafo: GrafoMetro, problema: Problema, n: nat)
    requires
        grafo.bem_formado(),
        problema.valido(grafo),
        heuristica_consistente(grafo, problema.objetivo),
    ensures
        invariante(grafo, problema, apos(grafo, problema, inicial(grafo, problema), n)),
    decreases n,
{
    if n == 0 {
        lema_invariante_inicial(grafo, problema);
    } else {
        lema_alcancavel_invariante(grafo, problema, (n - 1) as nat);
        lema_passo_invariante(
            grafo,
            problema,
            apos(grafo, problema, inicial(grafo, problema), (n - 1) as nat),
        );
    }
}

// ---------------------------------------------------------------------------
// What the invariant gives at the goal
// ---------------------------------------------------------------------------
/// Along any route from the origin there is a point whose state has a best
/// cost no greater than the cost of the route up to it, and which is not
/// explored unless it is the end of the route.
proof fn lema_ponto_na_rota(grafo: GrafoMetro, problema: Problema, b: Busca, rota: Rota) -> (k: int)
    requires
        grafo.bem_formado(),
        invariante(grafo, problema, b),
        !(b.estado_atual is AvaliandoVizinho),
        rota_valida(grafo, problema.origem(), rota),
    ensures
        0 <= k <= rota.len(),
        custo_conhecido(
            b,
            destino(grafo, problema.origem(), rota.take(k)),
            custo_da_rota(grafo, problema.origem(), rota.take(k)),
        ),
        k < rota.len() ==> !b.explorados.contains(destino(grafo, problema.origem(), rota.take(k))),
    decreases rota.len(),
{
    let origem = problema.origem();
    if rota.len() == 0 {
        assert(rota.take(0) =~= rota);
        0
    } else {
        let antes = rota.drop_last();
        let k = lema_ponto_na_rota(grafo, problema, b, antes);
        assert(antes.take(k) =~= rota.take(k));
        let s = destino(grafo, origem, antes);
        if k < antes.len() {
            k
        } else if !b.explorados.contains(s) {
            assert(antes.take(k) =~= antes);
            k
        } else {
            assert(antes.take(k) =~= antes);
            assert(rota.take(rota.len() as int) =~= rota);
            let j = rota.last();
            assert(0 <= j < avaliadas(grafo, b, s));
            assert(custo_conhecido(
                b,
                chave_de_chegada(grafo.conexoes_de(s.0)[j]),
                b.custos_g[s] + grafo.conexoes_de(s.0)[j].tempo_minutos + custo_baldeacao(
                    s.1,
                    grafo.conexoes_de(s.0)[j].cor_linha,
                ),
            ));
            rota.len() as int
        }
    }
}

/// When the goal is found, the cost of the node that ends the search is the
/// cost of a route to the goal, and no route from the origin to the goal
/// station costs less.
pub proof fn lema_custo_minimo_no_objetivo(grafo: GrafoMetro, problema: Problema, b: Busca, rota: Rota)
    requires
        grafo.bem_formado(),
        problema.valido(grafo),
        heuristica_consistente(grafo, problema.objetivo),
        invariante(grafo, problema, b),
        b.estado_atual is CaminhoEncontrado,
        rota_valida(grafo, problema.origem(), rota),
        destino(grafo, problema.origem(), rota).0 == problema.objetivo,
    ensures
        b.no_atual is Some,
        b.no_atual->0.id_estacao == problema.objetivo,
        alcanca(grafo, problema.origem(), b.no_atual->0.chave(), b.no_atual->0.custo_g),
        b.no_atual->0.custo_g <= custo_da_rota(grafo, problema.origem(), rota),
{
    let origem = problema.origem();
    let atual = b.no_atual->0;
    assert(pendente(b, atual));
    assert(no_bem_formado(grafo, problema, atual));
    assert(alcanca(grafo, origem, atual.chave(), atual.custo_g)) by {
        assert(!b.explorados.contains(atual.chave()));
        lema_no_atual_tem_melhor_custo(grafo, problema, b);
        let achada = lema_rota_da_trilha(grafo, problema, b, atual.chave(), atual.caminho);
        assert(leva_a(grafo, origem, achada, atual.chave(), atual.custo_g));
    }
    let k = lema_ponto_na_rota(grafo, problema, b, rota);
    let parte = rota.take(k);
    let chave = destino(grafo, origem, parte);
    lema_estimativa_ao_longo_da_rota(grafo, origem, problema.objetivo, rota, k);
    if k == rota.len() {
        assert(parte =~= rota);
    }
    assert(!b.explorados.contains(chave));
    let no = choose|no: No| #[trigger]
        pendente(b, no) && no.chave() == chave && no.custo_g == b.custos_g[chave];
    if b.fronteira.contains(no) {
        let i = choose|i: int| 0 <= i < b.fronteira.len() && b.fronteira[i] == no;
        assert(no_bem_formado(grafo, problema, b.fronteira[i]));
        assert(atual.custo_f <= b.fronteira[i].custo_f);
    }
}

} // verus!
