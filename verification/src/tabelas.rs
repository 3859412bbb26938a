//! Tables indexed by search state. A graph of `n` stations has `6 * n` states
//! (each station with no arrival line, or with one of the five values of
//! `CorLinha`), so a set or a map of states is an array of that many cells.

use crate::grafo_metro::{CorLinha, IdEstacao, LIMITE_ESTACOES};
use crate::modelo::Chave;
use vstd::prelude::*;

verus! {

/// Number of arrival lines that a state can have: none, or a value of `CorLinha`.
pub const LINHAS_DE_CHEGADA: usize = 6;

/// The position of an arrival line among the six.
pub open spec fn codigo_da_linha(linha: Option<CorLinha>) -> int {
    match linha {
        None => 0,
        Some(CorLinha::Azul) => 1,
        Some(CorLinha::Amarela) => 2,
        Some(CorLinha::Vermelha) => 3,
        Some(CorLinha::Verde) => 4,
        Some(CorLinha::Nenhuma) => 5,
    }
}

/// The cell of a state.
pub open spec fn indice_da_chave(chave: Chave) -> int {
    chave.0 * 6 + codigo_da_linha(chave.1)
}

/// The number of marks that are set.
pub open spec fn contar_marcas(marcas: Seq<bool>) -> nat
    decreases marcas.len(),
{
    if marcas.len() == 0 {
        0
    } else {
        contar_marcas(marcas.drop_last()) + if marcas.last() {
            1nat
        } else {
            0nat
        }
    }
}

proof fn lema_marcas_limitadas(marcas: Seq<bool>)
    ensures
        contar_marcas(marcas) <= marcas.len(),
    decreases marcas.len(),
{
    if marcas.len() > 0 {
        lema_marcas_limitadas(marcas.drop_last());
    }
}

proof fn lema_nenhuma_marca(marcas: Seq<bool>)
    requires
        forall|i: int| 0 <= i < marcas.len() ==> !marcas[i],
    ensures
        contar_marcas(marcas) == 0,
    decreases marcas.len(),
{
    if marcas.len() > 0 {
        lema_nenhuma_marca(marcas.drop_last());
    }
}

proof fn lema_marca_nova(marcas: Seq<bool>, i: int)
    requires
        0 <= i < marcas.len(),
        !marcas[i],
    ensures
        contar_marcas(marcas.update(i, true)) == contar_marcas(marcas) + 1,
    decreases marcas.len(),
{
    let depois = marcas.update(i, true);
    if i == marcas.len() - 1 {
        assert(depois.drop_last() =~= marcas.drop_last());
    } else {
        lema_marca_nova(marcas.drop_last(), i);
        assert(depois.drop_last() =~= marcas.drop_last().update(i, true));
    }
}

fn calcular_indice(id_estacao: IdEstacao, linha: Option<CorLinha>) -> (indice: usize)
    requires
        id_estacao < LIMITE_ESTACOES,
    ensures
        indice == indice_da_chave((id_estacao as int, linha)),
{
    let codigo: usize = match linha {
        None => 0,
        Some(CorLinha::Azul) => 1,
        Some(CorLinha::Amarela) => 2,
        Some(CorLinha::Vermelha) => 3,
        Some(CorLinha::Verde) => 4,
        Some(CorLinha::Nenhuma) => 5,
    };
    id_estacao * LINHAS_DE_CHEGADA + codigo
}

/// A set of states of a graph.
#[derive(Debug)]
pub struct ConjuntoDeChaves {
    numero_estacoes: usize,
    marcas: Vec<bool>,
    total: usize,
}

impl View for ConjuntoDeChaves {
    type V = Set<Chave>;

    closed spec fn view(&self) -> Set<Chave> {
        Set::new(
            |chave: Chave|
                0 <= chave.0 < self.numero_estacoes && self.marcas@[indice_da_chave(chave)],
        )
    }
}

impl ConjuntoDeChaves {
    /// The representation invariant.
    pub closed spec fn valido(&self) -> bool {
        &&& self.numero_estacoes <= LIMITE_ESTACOES
        &&& self.marcas@.len() == 6 * self.numero_estacoes
        &&& self.total == contar_marcas(self.marcas@)
    }

    /// Number of stations of the graph whose states the set holds.
    pub closed spec fn numero_estacoes(&self) -> int {
        self.numero_estacoes as int
    }

    /// Number of states in the set.
    pub closed spec fn total(&self) -> nat {
        self.total as nat
    }

    /// A set never holds more states than the graph has, and none of a
    /// station outside it.
    pub proof fn lema_limites(&self)
        requires
            self.valido(),
        ensures
            self.total() <= 6 * self.numero_estacoes(),
            self.numero_estacoes() <= LIMITE_ESTACOES,
            forall|chave: Chave| #[trigger]
                self@.contains(chave) ==> 0 <= chave.0 < self.numero_estacoes(),
    {
        lema_marcas_limitadas(self.marcas@);
    }

    /// Number of stations of the graph whose states the set holds.
    pub fn estacoes(&self) -> (n: usize)
        ensures
            n == self.numero_estacoes(),
    {
        self.numero_estacoes
    }

    /// The empty set of states of a graph of `numero_estacoes` stations.
    pub fn novo(numero_estacoes: usize) -> (conjunto: Self)
        requires
            numero_estacoes <= LIMITE_ESTACOES,
        ensures
            conjunto.valido(),
            conjunto.numero_estacoes() == numero_estacoes,
            conjunto@ == Set::<Chave>::empty(),
            conjunto.total() == 0,
    {
        let tamanho = numero_estacoes * LINHAS_DE_CHEGADA;
        let mut marcas: Vec<bool> = Vec::new();
        let mut i: usize = 0;
        while i < tamanho
            invariant
                i <= tamanho,
                marcas@.len() == i,
                forall|k: int| 0 <= k < i ==> !marcas@[k],
            decreases tamanho - i,
        {
            marcas.push(false);
            i = i + 1;
        }
        proof {
            lema_nenhuma_marca(marcas@);
        }
        let conjunto = ConjuntoDeChaves { numero_estacoes, marcas, total: 0 };
        assert(conjunto@ =~= Set::<Chave>::empty());
        conjunto
    }

    /// Whether the state (`id_estacao`, `linha`) is in the set.
    pub fn contem(&self, id_estacao: IdEstacao, linha: Option<CorLinha>) -> (esta: bool)
        requires
            self.valido(),
            id_estacao < self.numero_estacoes(),
        ensures
            esta == self@.contains((id_estacao as int, linha)),
    {
        self.marcas[calcular_indice(id_estacao, linha)]
    }

    /// Puts the state (`id_estacao`, `linha`) into the set.
    pub fn inserir(&mut self, id_estacao: IdEstacao, linha: Option<CorLinha>)
        requires
            old(self).valido(),
            id_estacao < old(self).numero_estacoes(),
        ensures
            final(self).valido(),
            final(self).numero_estacoes() == old(self).numero_estacoes(),
            final(self)@ == old(self)@.insert((id_estacao as int, linha)),
            final(self).total() == old(self).total() + if old(self)@.contains(
                (id_estacao as int, linha),
            ) {
                0nat
            } else {
                1nat
            },
    {
        let indice = calcular_indice(id_estacao, linha);
        if !self.marcas[indice] {
            proof {
                lema_marca_nova(self.marcas@, indice as int);
                lema_marcas_limitadas(self.marcas@.update(indice as int, true));
            }
            self.marcas.set(indice, true);
            self.total = self.total + 1;
        }
        proof {
            let chave_nova: Chave = (id_estacao as int, linha);
            assert forall|chave: Chave|
                final(self)@.contains(chave) <==> old(self)@.insert(chave_nova).contains(chave) by {
                if indice_da_chave(chave) == indice_da_chave(chave_nova) && 0 <= chave.0 {
                    assert(chave == chave_nova);
                }
            }
            assert(final(self)@ =~= old(self)@.insert(chave_nova));
        }
    }

    /// A copy of the set.
    pub fn copiar(&self) -> (copia: Self)
        requires
            self.valido(),
        ensures
            copia.valido(),
            copia.numero_estacoes() == self.numero_estacoes(),
            copia@ == self@,
            copia.total() == self.total(),
    {
        let mut marcas: Vec<bool> = Vec::new();
        let mut i: usize = 0;
        while i < self.marcas.len()
            invariant
                i <= self.marcas@.len(),
                marcas@ == self.marcas@.subrange(0, i as int),
            decreases self.marcas@.len() - i,
        {
            marcas.push(self.marcas[i]);
            proof {
                assert(marcas@ =~= self.marcas@.subrange(0, i + 1));
            }
            i = i + 1;
        }
        proof {
            assert(marcas@ =~= self.marcas@);
        }
        ConjuntoDeChaves { numero_estacoes: self.numero_estacoes, marcas, total: self.total }
    }
}

/// A map from states of a graph to values.
#[derive(Debug)]
pub struct MapaDeChaves<T> {
    numero_estacoes: usize,
    celulas: Vec<Option<T>>,
}

impl<T> View for MapaDeChaves<T> {
    type V = Map<Chave, T>;

    closed spec fn view(&self) -> Map<Chave, T> {
        Map::new(
            |chave: Chave|
                0 <= chave.0 < self.numero_estacoes && self.celulas@[indice_da_chave(chave)] is Some,
            |chave: Chave| self.celulas@[indice_da_chave(chave)]->0,
        )
    }
}

impl<T: Copy> MapaDeChaves<T> {
    /// The representation invariant.
    pub closed spec fn valido(&self) -> bool {
        &&& self.numero_estacoes <= LIMITE_ESTACOES
        &&& self.celulas@.len() == 6 * self.numero_estacoes
    }

    /// Number of stations of the graph whose states the map is keyed by.
    pub closed spec fn numero_estacoes(&self) -> int {
        self.numero_estacoes as int
    }

    /// A map holds no state of a station outside the graph.
    pub proof fn lema_limites(&self)
        requires
            self.valido(),
        ensures
            self.numero_estacoes() <= LIMITE_ESTACOES,
            forall|chave: Chave| #[trigger]
                self@.contains_key(chave) ==> 0 <= chave.0 < self.numero_estacoes(),
    {
    }

    /// Number of stations of the graph whose states the map is keyed by.
    pub fn estacoes(&self) -> (n: usize)
        ensures
            n == self.numero_estacoes(),
    {
        self.numero_estacoes
    }

    /// The empty map over the states of a graph of `numero_estacoes` stations.
    pub fn novo(numero_estacoes: usize) -> (mapa: Self)
        requires
            numero_estacoes <= LIMITE_ESTACOES,
        ensures
            mapa.valido(),
            mapa.numero_estacoes() == numero_estacoes,
            mapa@ == Map::<Chave, T>::empty(),
    {
        let tamanho = numero_estacoes * LINHAS_DE_CHEGADA;
        let mut celulas: Vec<Option<T>> = Vec::new();
        let mut i: usize = 0;
        while i < tamanho
            invariant
                i <= tamanho,
                celulas@.len() == i,
                forall|k: int| 0 <= k < i ==> celulas@[k] is None,
            decreases tamanho - i,
        {
            celulas.push(None);
            i = i + 1;
        }
        let mapa = MapaDeChaves { numero_estacoes, celulas };
        assert(mapa@ =~= Map::<Chave, T>::empty());
        mapa
    }

    /// The value of the state (`id_estacao`, `linha`), where it has one.
    pub fn obter(&self, id_estacao: IdEstacao, linha: Option<CorLinha>) -> (valor: Option<T>)
        requires
            self.valido(),
            id_estacao < self.numero_estacoes(),
        ensures
            valor == if self@.contains_key((id_estacao as int, linha)) {
                Some(self@[(id_estacao as int, linha)])
            } else {
                None
            },
    {
        self.celulas[calcular_indice(id_estacao, linha)]
    }

    /// Gives the state (`id_estacao`, `linha`) the value `valor`.
    pub fn inserir(&mut self, id_estacao: IdEstacao, linha: Option<CorLinha>, valor: T)
        requires
            old(self).valido(),
            id_estacao < old(self).numero_estacoes(),
        ensures
            final(self).valido(),
            final(self).numero_estacoes() == old(self).numero_estacoes(),
            final(self)@ == old(self)@.insert((id_estacao as int, linha), valor),
    {
        let indice = calcular_indice(id_estacao, linha);
        self.celulas.set(indice, Some(valor));
        proof {
            let chave_nova: Chave = (id_estacao as int, linha);
            let esperado = old(self)@.insert(chave_nova, valor);
            assert forall|chave: Chave|
                final(self)@.contains_key(chave) <==> esperado.contains_key(chave) by {
                if indice_da_chave(chave) == indice_da_chave(chave_nova) && 0 <= chave.0 {
                    assert(chave == chave_nova);
                }
            }
            assert forall|chave: Chave| final(self)@.contains_key(chave) implies final(self)@[chave]
                == esperado[chave] by {
                if indice_da_chave(chave) == indice_da_chave(chave_nova) && 0 <= chave.0 {
                    assert(chave == chave_nova);
                }
            }
            assert(final(self)@ =~= esperado);
        }
    }

    /// A copy of the map.
    pub fn copiar(&self) -> (copia: Self)
        requires
            self.valido(),
        ensures
            copia.valido(),
            copia.numero_estacoes() == self.numero_estacoes(),
            copia@ == self@,
    {
        let mut celulas: Vec<Option<T>> = Vec::new();
        let mut i: usize = 0;
        while i < self.celulas.len()
            invariant
                i <= self.celulas@.len(),
                celulas@ == self.celulas@.subrange(0, i as int),
            decreases self.celulas@.len() - i,
        {
            celulas.push(self.celulas[i]);
            proof {
                assert(celulas@ =~= self.celulas@.subrange(0, i + 1));
            }
            i = i + 1;
        }
        proof {
            assert(celulas@ =~= self.celulas@);
        }
        MapaDeChaves { numero_estacoes: self.numero_estacoes, celulas }
    }
}

} // verus!
