//! The metro network: stations, directed connections with the line they run
//! on, and the table of straight-line distances that the search uses as its
//! heuristic.
//!
//! Times and distances are fixed-point numbers with three decimal places, held
//! as integer counts of thousandths.

use crate::texto::{digitos, formatar_natural};
use vstd::prelude::*;
use vstd::string::*;

verus! {

/// Identifier of a station: its position in the graph's station list.
pub type IdEstacao = usize;

/// A time in minutes, counted in thousandths of a minute.
pub type Minutos = u64;

/// A distance in kilometres, counted in thousandths of a kilometre.
pub type Quilometros = u64;

/// How many stored units make one minute, or one kilometre.
pub const MILESIMOS: u64 = 1000;

/// Number of stations of the network that `GrafoMetro::novo` builds.
pub const NUMERO_ESTACOES: usize = 14;

/// Average speed of a train, in km/h.
pub const VELOCIDADE_TREM_KMH: u64 = 30;

/// Minutes that a train takes for one kilometre.
pub const MINUTOS_POR_KM: u64 = 60 / VELOCIDADE_TREM_KMH;

/// Fixed time that changing lines inside a station costs: four minutes.
pub const TEMPO_BALDEACAO_MINUTOS: Minutos = 4 * MILESIMOS;

/// Largest number of stations that a well-formed graph holds.
pub const LIMITE_ESTACOES: usize = 1_000_000;

/// Largest travel time of one connection, and largest heuristic time, that a
/// well-formed graph holds.
pub const LIMITE_TEMPO_MINUTOS: Minutos = 1_000_000_000_000;

/// The lines of the network, plus `Nenhuma` for "no line".
#[derive(Debug, Clone, Copy, PartialEq, Eq, Hash, Structural)]
pub enum CorLinha {
    Azul,
    Amarela,
    Vermelha,
    Verde,
    Nenhuma,
}

impl CorLinha {
    /// The line that a numeric code stands for.
    pub open spec fn de_inteiro_spec(valor: u8) -> CorLinha {
        if valor == 1 {
            CorLinha::Azul
        } else if valor == 2 {
            CorLinha::Amarela
        } else if valor == 3 {
            CorLinha::Vermelha
        } else if valor == 4 {
            CorLinha::Verde
        } else {
            CorLinha::Nenhuma
        }
    }

    /// Maps a numeric line code to its line; any code outside 1..=4 is `Nenhuma`.
    pub fn de_inteiro(valor: u8) -> (cor: CorLinha)
        ensures
            cor == Self::de_inteiro_spec(valor),
    {
        match valor {
            1 => CorLinha::Azul,
            2 => CorLinha::Amarela,
            3 => CorLinha::Vermelha,
            4 => CorLinha::Verde,
            _ => CorLinha::Nenhuma,
        }
    }
}

/// A station of the network.
#[derive(Debug, Clone)]
pub struct Estacao {
    pub id: IdEstacao,
    pub nome: String,
}

/// A directed connection out of a station.
#[derive(Debug, Clone, Copy, PartialEq, Eq, Structural)]
pub struct Conexao {
    /// The station that the connection leads to.
    pub para_estacao: IdEstacao,
    /// The line that the connection runs on.
    pub cor_linha: CorLinha,
    /// Length of the connection.
    pub distancia_km: Quilometros,
    /// Travel time over the connection: the cost of this edge.
    pub tempo_minutos: Minutos,
}

/// The whole network. Read-only while a search runs on it.
#[derive(Debug, Default)]
pub struct GrafoMetro {
    /// The stations, each at the position that is its id.
    pub estacoes: Vec<Estacao>,
    /// For each station, the connections that leave it.
    pub lista_adjacencia: Vec<Vec<Conexao>>,
    /// For each pair of stations, the straight-line distance where it is known.
    pub distancias_heuristicas_km: Vec<Vec<Option<Quilometros>>>,
}

/// The name that `GrafoMetro::com_estacoes` gives to station `id`: `E` and the
/// one-based number of the station.
pub open spec fn nome_padrao(id: nat) -> Seq<char> {
    seq!['E'] + digitos(id + 1)
}

/// The travel time of a stretch of `distancia` kilometres.
pub open spec fn tempo_de_viagem(distancia: int) -> int {
    distancia * MINUTOS_POR_KM
}

/// Whether a connection may stand in a graph of `n` stations.
pub open spec fn conexao_bem_formada(c: Conexao, n: int) -> bool {
    c.para_estacao < n && c.tempo_minutos <= LIMITE_TEMPO_MINUTOS
}

/// Whether a straight-line distance gives a heuristic time within the limit.
pub open spec fn distancia_bem_formada(d: Option<Quilometros>) -> bool {
    match d {
        Some(km) => tempo_de_viagem(km as int) <= LIMITE_TEMPO_MINUTOS,
        None => true,
    }
}

/// Writes the name that `GrafoMetro::com_estacoes` gives to station `id`.
pub fn nome_da_estacao(id: IdEstacao) -> (nome: String)
    requires
        id < usize::MAX,
    ensures
        nome@ == nome_padrao(id as nat),
{
    let mut nome = String::from_str("E");
    let numero = formatar_natural(id + 1);
    nome.append(numero.as_str());
    proof {
        reveal_strlit("E");
        assert(nome@ =~= nome_padrao(id as nat));
    }
    nome
}

/// Longest list of stations that `GrafoMetro::avaliar_trajeto` takes.
pub const LIMITE_TRAJETO: usize = 1_000_000;

/// What travelling along a list of stations comes to.
#[derive(Debug, Clone, Copy, PartialEq, Eq, Structural)]
pub struct ResumoTrajeto {
    /// Travel times of the connections found, and the transfer time for
    /// each change of line.
    pub tempo_total_minutos: Minutos,
    /// Number of changes of line.
    pub baldeacoes: u32,
    /// Number of consecutive stations between which no connection was found.
    pub trechos_sem_conexao: u32,
    /// The line of the last connection found.
    pub ultima_linha: Option<CorLinha>,
}

/// The first of `conexoes` that leads to station `para`.
pub open spec fn primeira_conexao(conexoes: Seq<Conexao>, para: int) -> Option<Conexao>
    decreases conexoes.len(),
{
    if conexoes.len() == 0 {
        None
    } else if conexoes[0].para_estacao == para {
        Some(conexoes[0])
    } else {
        primeira_conexao(conexoes.drop_first(), para)
    }
}

/// The connection that a traveller takes from station `de` to station
/// `para`: the first in the list of `de` that leads there.
pub open spec fn conexao_direta(grafo: GrafoMetro, de: int, para: int) -> Option<Conexao> {
    if 0 <= de < grafo.lista_adjacencia@.len() {
        primeira_conexao(grafo.conexoes_de(de), para)
    } else {
        None
    }
}

/// What travelling along `estacoes` comes to: between each station and the
/// next the direct connection is taken, and a change of line from the
/// connection taken before costs the transfer time. A pair of stations
/// without a direct connection is counted and passed over.
pub open spec fn resumo_do_trajeto(grafo: GrafoMetro, estacoes: Seq<IdEstacao>) -> (int, int, int, Option<CorLinha>)
    decreases estacoes.len(),
{
    if estacoes.len() < 2 {
        (0, 0, 0, None)
    } else {
        let (tempo, baldeacoes, ausentes, linha) = resumo_do_trajeto(grafo, estacoes.drop_last());
        match conexao_direta(grafo, estacoes[estacoes.len() - 2] as int, estacoes.last() as int) {
            Some(conexao) => {
                let trocou = linha is Some && linha != Some(conexao.cor_linha);
                (
                    tempo + conexao.tempo_minutos + if trocou {
                        TEMPO_BALDEACAO_MINUTOS as int
                    } else {
                        0
                    },
                    baldeacoes + if trocou {
                        1int
                    } else {
                        0int
                    },
                    ausentes,
                    Some(conexao.cor_linha),
                )
            },
            None => (tempo, baldeacoes, ausentes + 1, linha),
        }
    }
}

impl GrafoMetro {
    /// Number of stations.
    pub open spec fn numero_estacoes(&self) -> int {
        self.estacoes@.len() as int
    }

    /// The connections that leave station `id`.
    pub open spec fn conexoes_de(&self, id: int) -> Seq<Conexao> {
        self.lista_adjacencia@[id]@
    }

    /// The straight-line distance from `de` to `para`, where it is known.
    pub open spec fn distancia_heuristica(&self, de: int, para: int) -> Option<Quilometros> {
        self.distancias_heuristicas_km@[de]@[para]
    }

    /// The heuristic time from `de` to `para`, where the distance is known.
    pub open spec fn tempo_heuristico(&self, de: int, para: int) -> Option<int> {
        match self.distancia_heuristica(de, para) {
            Some(km) => Some(tempo_de_viagem(km as int)),
            None => None,
        }
    }

    /// The estimate that the search uses: the heuristic time, and zero where
    /// the distance is not known.
    pub open spec fn heuristica(&self, de: int, para: int) -> int {
        match self.tempo_heuristico(de, para) {
            Some(t) => t,
            None => 0,
        }
    }

    /// A graph that a search may run on: the three tables agree on the number
    /// of stations, every connection leads to a station of the graph, and
    /// every time is within `LIMITE_TEMPO_MINUTOS`.
    pub open spec fn bem_formado(&self) -> bool {
        let n = self.numero_estacoes();
        &&& n <= LIMITE_ESTACOES
        &&& self.lista_adjacencia@.len() == n
        &&& self.distancias_heuristicas_km@.len() == n
        &&& forall|i: int| 0 <= i < n ==> (#[trigger] self.distancias_heuristicas_km@[i])@.len() == n
        &&& forall|i: int, j: int|
            0 <= i < n && 0 <= j < n ==> distancia_bem_formada(
                #[trigger] self.distancia_heuristica(i, j),
            )
        &&& forall|i: int, j: int|
            0 <= i < n && 0 <= j < self.conexoes_de(i).len() ==> conexao_bem_formada(
                #[trigger] self.conexoes_de(i)[j],
                n,
            )
    }

    /// A station has no more connections than a vector holds.
    pub proof fn lema_numero_de_conexoes(&self, id: int)
        ensures
            self.conexoes_de(id).len() <= usize::MAX,
    {
        assert(self.lista_adjacencia@[id].len() == self.conexoes_de(id).len());
    }

    /// A graph of `n` stations named `E1` to `En`, without connections and
    /// without heuristic distances.
    pub fn com_estacoes(n: usize) -> (grafo: GrafoMetro)
        requires
            n <= LIMITE_ESTACOES,
        ensures
            grafo.bem_formado(),
            grafo.numero_estacoes() == n,
            forall|i: int|
                0 <= i < n ==> (#[trigger] grafo.estacoes@[i]).id == i && grafo.estacoes@[i].nome@
                    == nome_padrao(i as nat),
            forall|i: int| 0 <= i < n ==> (#[trigger] grafo.conexoes_de(i)).len() == 0,
            forall|i: int, j: int|
                0 <= i < n && 0 <= j < n ==> (#[trigger] grafo.distancia_heuristica(i, j)) is None,
    {
        let mut estacoes: Vec<Estacao> = Vec::new();
        let mut lista_adjacencia: Vec<Vec<Conexao>> = Vec::new();
        let mut distancias: Vec<Vec<Option<Quilometros>>> = Vec::new();
        let mut i: usize = 0;
        while i < n
            invariant
                i <= n <= LIMITE_ESTACOES,
                estacoes@.len() == i,
                lista_adjacencia@.len() == i,
                distancias@.len() == i,
                forall|k: int|
                    0 <= k < i ==> (#[trigger] estacoes@[k]).id == k && estacoes@[k].nome@
                        == nome_padrao(k as nat),
                forall|k: int| 0 <= k < i ==> (#[trigger] lista_adjacencia@[k])@.len() == 0,
                forall|k: int| 0 <= k < i ==> (#[trigger] distancias@[k])@.len() == n,
                forall|k: int, j: int|
                    0 <= k < i && 0 <= j < n ==> (#[trigger] distancias@[k]@[j]) is None,
            decreases n - i,
        {
            estacoes.push(Estacao { id: i, nome: nome_da_estacao(i) });
            lista_adjacencia.push(Vec::new());
            let mut linha: Vec<Option<Quilometros>> = Vec::new();
            let mut j: usize = 0;
            while j < n
                invariant
                    j <= n,
                    linha@.len() == j,
                    forall|k: int| 0 <= k < j ==> (#[trigger] linha@[k]) is None,
                decreases n - j,
            {
                linha.push(None);
                j = j + 1;
            }
            distancias.push(linha);
            i = i + 1;
        }
        GrafoMetro { estacoes, lista_adjacencia, distancias_heuristicas_km: distancias }
    }

    /// The network of `NUMERO_ESTACOES` stations, still without connections
    /// and heuristic distances.
    pub fn novo() -> (grafo: GrafoMetro)
        ensures
            grafo.bem_formado(),
            grafo.numero_estacoes() == NUMERO_ESTACOES,
            forall|i: int|
                0 <= i < NUMERO_ESTACOES ==> (#[trigger] grafo.estacoes@[i]).id == i
                    && grafo.estacoes@[i].nome@ == nome_padrao(i as nat),
            forall|i: int| 0 <= i < NUMERO_ESTACOES ==> (#[trigger] grafo.conexoes_de(i)).len() == 0,
            forall|i: int, j: int|
                0 <= i < NUMERO_ESTACOES && 0 <= j < NUMERO_ESTACOES ==> (
                #[trigger] grafo.distancia_heuristica(i, j)) is None,
    {
        Self::com_estacoes(NUMERO_ESTACOES)
    }

    /// The id of the first station whose name is `nome`.
    pub fn obter_id_estacao(&self, nome: &str) -> (r: Option<IdEstacao>)
        ensures
            match r {
                Some(id) => exists|i: int|
                    0 <= i < self.numero_estacoes() && (#[trigger] self.estacoes@[i]).nome@ == nome@
                        && self.estacoes@[i].id == id && forall|j: int|
                        0 <= j < i ==> (#[trigger] self.estacoes@[j]).nome@ != nome@,
                None => forall|j: int|
                    0 <= j < self.numero_estacoes() ==> (#[trigger] self.estacoes@[j]).nome@
                        != nome@,
            },
    {
        let procurado = String::from_str(nome);
        let mut i: usize = 0;
        while i < self.estacoes.len()
            invariant
                i <= self.estacoes@.len(),
                procurado@ == nome@,
                forall|j: int| 0 <= j < i ==> (#[trigger] self.estacoes@[j]).nome@ != nome@,
            decreases self.estacoes@.len() - i,
        {
            if self.estacoes[i].nome == procurado {
                return Some(self.estacoes[i].id);
            }
            i = i + 1;
        }
        None
    }

    /// The heuristic time from `de_estacao` to `para_estacao`: the travel time
    /// of the straight-line distance, where that distance is known.
    pub fn obter_tempo_heuristico_minutos(&self, de_estacao: IdEstacao, para_estacao: IdEstacao) -> (r:
        Option<Minutos>)
        requires
            self.bem_formado(),
            de_estacao < self.numero_estacoes(),
            para_estacao < self.numero_estacoes(),
        ensures
            match r {
                Some(t) => self.tempo_heuristico(de_estacao as int, para_estacao as int) == Some(
                    t as int,
                ),
                None => self.tempo_heuristico(de_estacao as int, para_estacao as int) is None,
            },
            self.heuristica(de_estacao as int, para_estacao as int) <= LIMITE_TEMPO_MINUTOS,
    {
        proof {
            assert(distancia_bem_formada(
                self.distancia_heuristica(de_estacao as int, para_estacao as int),
            ));
        }
        match self.distancias_heuristicas_km[de_estacao][para_estacao] {
            Some(km) => Some(km * MINUTOS_POR_KM),
            None => None,
        }
    }

    /// The first connection from station `de` to station `para`.
    pub fn buscar_conexao(&self, de: IdEstacao, para: IdEstacao) -> (r: Option<Conexao>)
        ensures
            r == conexao_direta(*self, de as int, para as int),
            r matches Some(c) ==> exists|j: int|
                0 <= j < self.conexoes_de(de as int).len() && self.conexoes_de(de as int)[j] == c,
    {
        if de >= self.lista_adjacencia.len() {
            return None;
        }
        let conexoes = &self.lista_adjacencia[de];
        let mut j: usize = 0;
        proof {
            assert(conexoes@.skip(0) =~= conexoes@);
        }
        while j < conexoes.len()
            invariant
                j <= conexoes@.len(),
                de < self.lista_adjacencia@.len(),
                conexoes@ == self.conexoes_de(de as int),
                primeira_conexao(conexoes@, para as int) == primeira_conexao(
                    conexoes@.skip(j as int),
                    para as int,
                ),
            decreases conexoes@.len() - j,
        {
            let ghost resto = conexoes@.skip(j as int);
            proof {
                assert(resto[0] == conexoes@[j as int]);
                assert(resto.drop_first() =~= conexoes@.skip(j + 1));
            }
            if conexoes[j].para_estacao == para {
                proof {
                    assert(primeira_conexao(resto, para as int) == Some(conexoes@[j as int]));
                    assert(self.conexoes_de(de as int)[j as int] == conexoes@[j as int]);
                }
                return Some(conexoes[j]);
            }
            j = j + 1;
        }
        proof {
            assert(conexoes@.skip(j as int).len() == 0);
        }
        None
    }

    /// Adds up what travelling along `estacoes` comes to.
    pub fn avaliar_trajeto(&self, estacoes: &Vec<IdEstacao>) -> (resumo: ResumoTrajeto)
        requires
            self.bem_formado(),
            estacoes@.len() <= LIMITE_TRAJETO,
        ensures
            (
                resumo.tempo_total_minutos as int,
                resumo.baldeacoes as int,
                resumo.trechos_sem_conexao as int,
                resumo.ultima_linha,
            ) == resumo_do_trajeto(*self, estacoes@),
    {
        let mut resumo = ResumoTrajeto {
            tempo_total_minutos: 0,
            baldeacoes: 0,
            trechos_sem_conexao: 0,
            ultima_linha: None,
        };
        if estacoes.len() < 2 {
            return resumo;
        }
        let mut i: usize = 1;
        proof {
            assert(estacoes@.take(1).len() == 1);
        }
        while i < estacoes.len()
            invariant
                1 <= i <= estacoes@.len() <= LIMITE_TRAJETO,
                self.bem_formado(),
                (
                    resumo.tempo_total_minutos as int,
                    resumo.baldeacoes as int,
                    resumo.trechos_sem_conexao as int,
                    resumo.ultima_linha,
                ) == resumo_do_trajeto(*self, estacoes@.take(i as int)),
                resumo.tempo_total_minutos <= (i - 1) * 1_000_000_004_000,
                resumo.baldeacoes <= i - 1,
                resumo.trechos_sem_conexao <= i - 1,
            decreases estacoes@.len() - i,
        {
            let ghost antes = estacoes@.take(i as int);
            let ghost depois = estacoes@.take(i + 1);
            proof {
                assert(depois.drop_last() =~= antes);
                assert(depois[depois.len() - 2] == estacoes@[i - 1]);
                assert(depois.last() == estacoes@[i as int]);
            }
            match self.buscar_conexao(estacoes[i - 1], estacoes[i]) {
                Some(conexao) => {
                    proof {
                        let de = estacoes@[i - 1] as int;
                        let j = choose|j: int|
                            0 <= j < self.conexoes_de(de).len() && self.conexoes_de(de)[j] == conexao;
                        assert(conexao_bem_formada(self.conexoes_de(de)[j], self.numero_estacoes()));
                    }
                    let trocou = match resumo.ultima_linha {
                        Some(linha) => linha != conexao.cor_linha,
                        None => false,
                    };
                    resumo.tempo_total_minutos = resumo.tempo_total_minutos + conexao.tempo_minutos;
                    if trocou {
                        resumo.tempo_total_minutos = resumo.tempo_total_minutos + TEMPO_BALDEACAO_MINUTOS;
                        resumo.baldeacoes = resumo.baldeacoes + 1;
                    }
                    resumo.ultima_linha = Some(conexao.cor_linha);
                },
                None => {
                    resumo.trechos_sem_conexao = resumo.trechos_sem_conexao + 1;
                },
            }
            i = i + 1;
        }
        proof {
            assert(estacoes@.take(i as int) =~= estacoes@);
        }
        resumo
    }

    /// Tests whether the graph is well formed.
    pub fn validar(&self) -> (ok: bool)
        ensures
            ok == self.bem_formado(),
    {
        let n = self.estacoes.len();
        if n > LIMITE_ESTACOES || self.lista_adjacencia.len() != n
            || self.distancias_heuristicas_km.len() != n {
            return false;
        }
        let mut i: usize = 0;
        while i < n
            invariant
                i <= n,
                n == self.numero_estacoes(),
                n <= LIMITE_ESTACOES,
                self.lista_adjacencia@.len() == n,
                self.distancias_heuristicas_km@.len() == n,
                forall|k: int| 0 <= k < i ==> (#[trigger] self.distancias_heuristicas_km@[k])@.len() == n,
                forall|k: int, j: int|
                    0 <= k < i && 0 <= j < n ==> distancia_bem_formada(
                        #[trigger] self.distancia_heuristica(k, j),
                    ),
                forall|k: int, j: int|
                    0 <= k < i && 0 <= j < self.conexoes_de(k).len() ==> conexao_bem_formada(
                        #[trigger] self.conexoes_de(k)[j],
                        n as int,
                    ),
            decreases n - i,
        {
            if self.distancias_heuristicas_km[i].len() != n {
                return false;
            }
            let mut j: usize = 0;
            while j < n
                invariant
                    i < n,
                    j <= n,
                    self.distancias_heuristicas_km@.len() == n,
                    self.distancias_heuristicas_km@[i as int]@.len() == n,
                    forall|k: int|
                        0 <= k < j ==> distancia_bem_formada(
                            #[trigger] self.distancia_heuristica(i as int, k),
                        ),
                decreases n - j,
            {
                match self.distancias_heuristicas_km[i][j] {
                    Some(km) => {
                        if km > LIMITE_TEMPO_MINUTOS / MINUTOS_POR_KM {
                            proof {
                                assert(!distancia_bem_formada(
                                    self.distancia_heuristica(i as int, j as int),
                                ));
                            }
                            return false;
                        }
                    },
                    None => {},
                }
                j = j + 1;
            }
            let conexoes = &self.lista_adjacencia[i];
            let mut c: usize = 0;
            while c < conexoes.len()
                invariant
                    i < n,
                    c <= conexoes@.len(),
                    n == self.numero_estacoes(),
                    self.lista_adjacencia@.len() == n,
                    conexoes@ == self.conexoes_de(i as int),
                    forall|k: int|
                        0 <= k < c ==> conexao_bem_formada(
                            #[trigger] self.conexoes_de(i as int)[k],
                            n as int,
                        ),
                decreases conexoes@.len() - c,
            {
                let conexao = conexoes[c];
                if conexao.para_estacao >= n || conexao.tempo_minutos > LIMITE_TEMPO_MINUTOS {
                    proof {
                        assert(!conexao_bem_formada(self.conexoes_de(i as int)[c as int], n as int));
                    }
                    return false;
                }
                c = c + 1;
            }
            i = i + 1;
        }
        true
    }
}

} // verus!
