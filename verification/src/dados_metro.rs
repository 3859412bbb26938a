//! Loading the network from its data tables. A table is delimited text: one
//! header line, then one record for each station, fields separated by `;`,
//! the first field of a record being the station's label and field `j + 1`
//! the cell for station `j`.

use crate::decimal::{analisar_codigo, analisar_decimal, codigo_de_texto, decimal_de_texto};
use crate::grafo_metro::{
    conexao_bem_formada, distancia_bem_formada, tempo_de_viagem, Conexao, CorLinha, GrafoMetro,
    Quilometros, LIMITE_TEMPO_MINUTOS, MINUTOS_POR_KM,
};
use vstd::prelude::*;

verus! {

/// Declares `csv::Error`, the error that the csv reader returns for a
/// record. Nothing is said of what it holds: the loader only tells it from
/// a record that was read.
#[verifier::external_type_specification]
#[verifier::external_body]
pub struct ExErroCsv(csv::Error);

/// What the csv reader makes of `conteudo`, read with `;` between fields and
/// with its first record as header: the records after the header in order,
/// each as the text of its fields, and `None` in the place of each record
/// for which the reader returns an error.
pub uninterp spec fn registros_csv(conteudo: Seq<u8>) -> Seq<Option<Seq<Seq<char>>>>;

/// The fields of a record as text.
pub open spec fn campos_como_texto(campos: Seq<String>) -> Seq<Seq<char>> {
    campos.map_values(|campo: String| campo@)
}

/// The records of a table as text.
pub open spec fn registros_como_texto(registros: Seq<Vec<String>>) -> Seq<Seq<Seq<char>>> {
    registros.map_values(|registro: Vec<String>| campos_como_texto(registro@))
}

/// What was read of a table: the text of each record that was read, and
/// `None` for each that the reader gave an error for.
pub open spec fn registros_lidos(lidos: Seq<Result<Vec<String>, csv::Error>>) -> Seq<
    Option<Seq<Seq<char>>>,
> {
    lidos.map_values(
        |lido: Result<Vec<String>, csv::Error>|
            match lido {
                Ok(campos) => Some(campos_como_texto(campos@)),
                Err(_) => None,
            },
    )
}

/// Calls `csv::ReaderBuilder` (delimiter `;`, headers on) and
/// `csv::Reader::records` on the bytes of a table, and hands out every item
/// of the iterator, the fields of each record copied into strings. The
/// contract only gives the outcome its name: nothing is claimed of how the
/// reader splits the bytes.
#[verifier::external_body]
fn ler_registros_csv(conteudo: &[u8]) -> (lidos: Vec<Result<Vec<String>, csv::Error>>)
    ensures
        registros_lidos(lidos@) == registros_csv(conteudo@),
{
    let mut leitor = csv::ReaderBuilder::new().delimiter(b';').has_headers(true).from_reader(conteudo);
    leitor.records().map(
        |registro| registro.map(|campos| campos.iter().map(|campo| campo.to_string()).collect()),
    ).collect()
}

/// Why a table was not loaded.
#[derive(Debug, Clone, Copy, PartialEq, Eq, Structural)]
pub enum ErroDeCarga {
    /// The reader gave an error for the record at this position, counted
    /// from zero after the header.
    RegistroInvalido { registro: usize },
    /// The cell of this row and column holds a distance whose travel time is
    /// over `LIMITE_TEMPO_MINUTOS`.
    ValorForaDoLimite { linha: usize, coluna: usize },
}

// ---------------------------------------------------------------------------
// What the tables say
// ---------------------------------------------------------------------------
/// The text of the cell for column `coluna` in record `linha`, where the
/// table has it.
pub open spec fn celula(registros: Seq<Seq<Seq<char>>>, linha: int, coluna: int) -> Option<Seq<char>> {
    if 0 <= linha < registros.len() && 0 <= coluna && coluna + 1 < registros[linha].len() {
        Some(registros[linha][coluna + 1])
    } else {
        None
    }
}

/// The distance, in thousandths of a kilometre, that the table gives for
/// row `linha` and column `coluna`.
pub open spec fn distancia_na_celula(registros: Seq<Seq<Seq<char>>>, linha: int, coluna: int) -> Option<nat> {
    match celula(registros, linha, coluna) {
        Some(texto) => decimal_de_texto(texto),
        None => None,
    }
}

/// The line that the table gives for row `linha` and column `coluna`: the
/// line of a code from 1 to 4.
pub open spec fn linha_na_celula(registros: Seq<Seq<Seq<char>>>, linha: int, coluna: int) -> Option<CorLinha> {
    match celula(registros, linha, coluna) {
        Some(texto) => match codigo_de_texto(texto) {
            Some(codigo) => if 1 <= codigo <= 4 {
                Some(CorLinha::de_inteiro_spec(codigo as u8))
            } else {
                None
            },
            None => None,
        },
        None => None,
    }
}

/// Whether the travel time of a distance is within the limit.
pub open spec fn distancia_aceitavel(distancia: nat) -> bool {
    tempo_de_viagem(distancia as int) <= LIMITE_TEMPO_MINUTOS
}

/// Whether the cell of row `i` and column `j` comes before that of row
/// `linha` and column `coluna` when the table is read row by row.
pub open spec fn antes_de(i: int, j: int, linha: int, coluna: int) -> bool {
    i < linha || (i == linha && j < coluna)
}

/// Whether the heuristic distance that the table gives for a cell can be taken.
pub open spec fn heuristica_aceitavel(registros: Seq<Seq<Seq<char>>>, i: int, j: int) -> bool {
    match distancia_na_celula(registros, i, j) {
        Some(d) => distancia_aceitavel(d),
        None => true,
    }
}

/// The heuristic distance of a pair of stations after a table is loaded: the
/// distance that the table gives, and the earlier one where it gives none.
pub open spec fn heuristica_carregada(
    antes: Option<Quilometros>,
    registros: Seq<Seq<Seq<char>>>,
    i: int,
    j: int,
) -> Option<Quilometros> {
    match distancia_na_celula(registros, i, j) {
        Some(d) => Some(d as u64),
        None => antes,
    }
}

/// The distance of the connection that the tables give from station `i` to
/// station `j`: there is one between different stations where the table of
/// lines gives a line and the table of distances a distance above zero.
pub open spec fn distancia_de_conexao(
    distancias: Seq<Seq<Seq<char>>>,
    linhas: Seq<Seq<Seq<char>>>,
    i: int,
    j: int,
) -> Option<nat> {
    if i != j && linha_na_celula(linhas, i, j) is Some {
        match distancia_na_celula(distancias, i, j) {
            Some(d) => if d > 0 {
                Some(d)
            } else {
                None
            },
            None => None,
        }
    } else {
        None
    }
}

/// Whether the connection that the tables give from `i` to `j`, if any, can
/// be taken.
pub open spec fn conexao_aceitavel(
    distancias: Seq<Seq<Seq<char>>>,
    linhas: Seq<Seq<Seq<char>>>,
    i: int,
    j: int,
) -> bool {
    match distancia_de_conexao(distancias, linhas, i, j) {
        Some(d) => distancia_aceitavel(d),
        None => true,
    }
}

/// The connection that the tables give from station `i` to station `j`.
pub open spec fn conexao_lida(
    distancias: Seq<Seq<Seq<char>>>,
    linhas: Seq<Seq<Seq<char>>>,
    i: int,
    j: int,
) -> Option<Conexao> {
    match distancia_de_conexao(distancias, linhas, i, j) {
        Some(d) => Some(
            Conexao {
                para_estacao: j as usize,
                cor_linha: linha_na_celula(linhas, i, j)->0,
                distancia_km: d as u64,
                tempo_minutos: tempo_de_viagem(d as int) as u64,
            },
        ),
        None => None,
    }
}

/// The connections that the tables give from station `i` to the stations
/// before `ate`, in the order of the stations.
pub open spec fn conexoes_lidas(
    distancias: Seq<Seq<Seq<char>>>,
    linhas: Seq<Seq<Seq<char>>>,
    i: int,
    ate: int,
) -> Seq<Conexao>
    decreases ate,
{
    if ate <= 0 {
        Seq::empty()
    } else {
        let antes = conexoes_lidas(distancias, linhas, i, ate - 1);
        match conexao_lida(distancias, linhas, i, ate - 1) {
            Some(conexao) => antes.push(conexao),
            None => antes,
        }
    }
}

/// What loading a table of heuristic distances does to a graph of `n`
/// stations. The load succeeds when every distance that the table gives for
/// a pair of stations of the graph is within the limit; the graph then holds
/// those distances, and is otherwise as it was. It fails at the first cell,
/// row by row, whose distance is over the limit, and leaves the graph as it
/// was.
pub open spec fn heuristicas_aplicadas(
    antes: GrafoMetro,
    registros: Seq<Seq<Seq<char>>>,
    resultado: Result<(), ErroDeCarga>,
    depois: GrafoMetro,
) -> bool {
    let n = antes.numero_estacoes();
    match resultado {
        Ok(()) => {
            &&& depois.bem_formado()
            &&& depois.estacoes == antes.estacoes
            &&& depois.lista_adjacencia == antes.lista_adjacencia
            &&& forall|i: int, j: int|
                0 <= i < n && 0 <= j < n ==> heuristica_aceitavel(registros, i, j) && (
                #[trigger] depois.distancia_heuristica(i, j)) == heuristica_carregada(
                    antes.distancia_heuristica(i, j),
                    registros,
                    i,
                    j,
                )
        },
        Err(ErroDeCarga::ValorForaDoLimite { linha, coluna }) => {
            &&& depois == antes
            &&& linha < n && coluna < n
            &&& !heuristica_aceitavel(registros, linha as int, coluna as int)
            &&& forall|i: int, j: int|
                0 <= i < n && 0 <= j < n && antes_de(i, j, linha as int, coluna as int)
                    ==> #[trigger] heuristica_aceitavel(registros, i, j)
        },
        Err(_) => false,
    }
}

/// What loading the tables of real distances and of lines does to a graph of
/// `n` stations. The load succeeds when every connection that the tables
/// give is within the limit; each station then has the connections that the
/// tables give it after those that it had. It fails at the first cell, row
/// by row, whose connection is over the limit, and leaves the graph as it
/// was.
pub open spec fn conexoes_aplicadas(
    antes: GrafoMetro,
    distancias: Seq<Seq<Seq<char>>>,
    linhas: Seq<Seq<Seq<char>>>,
    resultado: Result<(), ErroDeCarga>,
    depois: GrafoMetro,
) -> bool {
    let n = antes.numero_estacoes();
    match resultado {
        Ok(()) => {
            &&& depois.bem_formado()
            &&& depois.estacoes == antes.estacoes
            &&& depois.distancias_heuristicas_km == antes.distancias_heuristicas_km
            &&& forall|i: int, j: int|
                0 <= i < n && 0 <= j < n ==> #[trigger] conexao_aceitavel(distancias, linhas, i, j)
            &&& forall|i: int|
                0 <= i < n ==> (#[trigger] depois.conexoes_de(i)) == antes.conexoes_de(i)
                    + conexoes_lidas(distancias, linhas, i, n)
        },
        Err(ErroDeCarga::ValorForaDoLimite { linha, coluna }) => {
            &&& depois == antes
            &&& linha < n && coluna < n
            &&& !conexao_aceitavel(distancias, linhas, linha as int, coluna as int)
            &&& forall|i: int, j: int|
                0 <= i < n && 0 <= j < n && antes_de(i, j, linha as int, coluna as int)
                    ==> #[trigger] conexao_aceitavel(distancias, linhas, i, j)
        },
        Err(_) => false,
    }
}

/// The first `n` records read of a table, where the reader gave no error
/// for any of them.
pub open spec fn registros_aproveitados(lidos: Seq<Option<Seq<Seq<char>>>>, n: int) -> Seq<Seq<Seq<char>>> {
    Seq::new(
        if lidos.len() < n {
            lidos.len()
        } else {
            n as nat
        },
        |k: int| lidos[k]->0,
    )
}

/// Whether `registro` is the first among the first `n` records read of a
/// table for which the reader gave an error.
pub open spec fn primeiro_invalido(lidos: Seq<Option<Seq<Seq<char>>>>, n: int, registro: int) -> bool {
    &&& 0 <= registro < n
    &&& registro < lidos.len()
    &&& lidos[registro] is None
    &&& forall|k: int| 0 <= k < registro ==> (#[trigger] lidos[k]) is Some
}

/// Whether the reader gave no error for any of the first `n` records read
/// of a table.
pub open spec fn todos_validos(lidos: Seq<Option<Seq<Seq<char>>>>, n: int) -> bool {
    forall|k: int| 0 <= k < n && k < lidos.len() ==> (#[trigger] lidos[k]) is Some
}

// ---------------------------------------------------------------------------
// Loading
// ---------------------------------------------------------------------------
/// Copies the first `n` records out of what was read of a table, or says
/// which of them is the first that the reader gave an error for.
fn aproveitar_registros(lidos: &Vec<Result<Vec<String>, csv::Error>>, n: usize) -> (r: Result<
    Vec<Vec<String>>,
    ErroDeCarga,
>)
    ensures
        match r {
            Ok(registros) => todos_validos(registros_lidos(lidos@), n as int) && registros_como_texto(
                registros@,
            ) == registros_aproveitados(registros_lidos(lidos@), n as int),
            Err(ErroDeCarga::RegistroInvalido { registro }) => primeiro_invalido(
                registros_lidos(lidos@),
                n as int,
                registro as int,
            ),
            Err(_) => false,
        },
{
    let ghost lidos_m = registros_lidos(lidos@);
    let mut registros: Vec<Vec<String>> = Vec::new();
    let mut k: usize = 0;
    while k < n && k < lidos.len()
        invariant
            k <= n,
            k <= lidos@.len(),
            lidos_m == registros_lidos(lidos@),
            registros@.len() == k,
            forall|i: int| 0 <= i < k ==> (#[trigger] lidos_m[i]) is Some,
            forall|i: int|
                0 <= i < k ==> campos_como_texto((#[trigger] registros@[i])@) == lidos_m[i]->0,
        decreases lidos@.len() - k,
    {
        match &lidos[k] {
            Ok(campos) => {
                let mut copia: Vec<String> = Vec::new();
                let mut c: usize = 0;
                while c < campos.len()
                    invariant
                        c <= campos@.len(),
                        copia@ == campos@.take(c as int),
                    decreases campos@.len() - c,
                {
                    copia.push(campos[c].clone());
                    proof {
                        assert(copia@ =~= campos@.take(c + 1));
                    }
                    c = c + 1;
                }
                proof {
                    assert(campos@.take(c as int) =~= campos@);
                    assert(lidos_m[k as int] == Some(campos_como_texto(campos@)));
                }
                registros.push(copia);
            },
            Err(_) => {
                proof {
                    assert(lidos_m[k as int] is None);
                }
                return Err(ErroDeCarga::RegistroInvalido { registro: k });
            },
        }
        k = k + 1;
    }
    proof {
        assert(registros_como_texto(registros@) =~= registros_aproveitados(lidos_m, n as int));
    }
    Ok(registros)
}

/// The distance that the records give for a cell, as `analisar_decimal`
/// reads it.
fn ler_distancia(registros: &Vec<Vec<String>>, linha: usize, coluna: usize) -> (r: Option<u64>)
    requires
        coluna < usize::MAX,
    ensures
        match distancia_na_celula(registros_como_texto(registros@), linha as int, coluna as int) {
            Some(d) => r == Some(
                if d <= u64::MAX {
                    d as u64
                } else {
                    u64::MAX
                },
            ),
            None => r is None,
        },
{
    if linha < registros.len() && coluna + 1 < registros[linha].len() {
        analisar_decimal(registros[linha][coluna + 1].as_str())
    } else {
        None
    }
}

/// The line that the records give for a cell.
fn ler_linha(registros: &Vec<Vec<String>>, linha: usize, coluna: usize) -> (r: Option<CorLinha>)
    requires
        coluna < usize::MAX,
    ensures
        r == linha_na_celula(registros_como_texto(registros@), linha as int, coluna as int),
{
    if linha < registros.len() && coluna + 1 < registros[linha].len() {
        match analisar_codigo(registros[linha][coluna + 1].as_str()) {
            Some(codigo) => {
                if 1 <= codigo && codigo <= 4 {
                    Some(CorLinha::de_inteiro(codigo as u8))
                } else {
                    None
                }
            },
            None => None,
        }
    } else {
        None
    }
}

impl GrafoMetro {
    /// Takes the heuristic distances from the records of a table.
    pub fn aplicar_distancias_heuristicas(&mut self, registros: &Vec<Vec<String>>) -> (resultado: Result<
        (),
        ErroDeCarga,
    >)
        requires
            old(self).bem_formado(),
        ensures
            heuristicas_aplicadas(*old(self), registros_como_texto(registros@), resultado, *final(self)),
    {
        let n = self.estacoes.len();
        let ghost textos = registros_como_texto(registros@);
        let mut nova: Vec<Vec<Option<Quilometros>>> = Vec::new();
        let mut i: usize = 0;
        while i < n
            invariant
                i <= n,
                n == self.numero_estacoes(),
                *self == *old(self),
                self.bem_formado(),
                textos == registros_como_texto(registros@),
                nova@.len() == i,
                forall|a: int| 0 <= a < i ==> (#[trigger] nova@[a])@.len() == n,
                forall|a: int, b: int|
                    0 <= a < i && 0 <= b < n ==> #[trigger] heuristica_aceitavel(textos, a, b),
                forall|a: int, b: int|
                    0 <= a < i && 0 <= b < n ==> (#[trigger] nova@[a]@[b]) == heuristica_carregada(
                        self.distancia_heuristica(a, b),
                        textos,
                        a,
                        b,
                    ),
            decreases n - i,
        {
            let mut linha_nova: Vec<Option<Quilometros>> = Vec::new();
            let mut j: usize = 0;
            while j < n
                invariant
                    i < n,
                    j <= n,
                    n == self.numero_estacoes(),
                    *self == *old(self),
                    self.bem_formado(),
                    textos == registros_como_texto(registros@),
                    linha_nova@.len() == j,
                    forall|a: int, b: int|
                        0 <= a < i && 0 <= b < n ==> #[trigger] heuristica_aceitavel(textos, a, b),
                    forall|b: int| 0 <= b < j ==> #[trigger] heuristica_aceitavel(textos, i as int, b),
                    forall|b: int|
                        0 <= b < j ==> (#[trigger] linha_nova@[b]) == heuristica_carregada(
                            self.distancia_heuristica(i as int, b),
                            textos,
                            i as int,
                            b,
                        ),
                decreases n - j,
            {
                match ler_distancia(registros, i, j) {
                    Some(d) => {
                        if d > LIMITE_TEMPO_MINUTOS / MINUTOS_POR_KM {
                            proof {
                                assert(!heuristica_aceitavel(textos, i as int, j as int));
                                assert forall|a: int, b: int|
                                    0 <= a < n && 0 <= b < n && antes_de(
                                        a,
                                        b,
                                        i as int,
                                        j as int,
                                    ) implies #[trigger] heuristica_aceitavel(textos, a, b) by {
                                    if a == i {
                                        assert(heuristica_aceitavel(textos, i as int, b));
                                    }
                                }
                            }
                            return Err(ErroDeCarga::ValorForaDoLimite { linha: i, coluna: j });
                        }
                        linha_nova.push(Some(d));
                    },
                    None => {
                        proof {
                            assert(self.distancias_heuristicas_km@[i as int]@.len() == n);
                        }
                        linha_nova.push(self.distancias_heuristicas_km[i][j]);
                    },
                }
                j = j + 1;
            }
            nova.push(linha_nova);
            i = i + 1;
        }
        let ghost tabela = nova@;
        self.distancias_heuristicas_km = nova;
        proof {
            assert forall|a: int, b: int| 0 <= a < n && 0 <= b < n implies distancia_bem_formada(
                #[trigger] self.distancia_heuristica(a, b),
            ) && self.distancia_heuristica(a, b) == heuristica_carregada(
                old(self).distancia_heuristica(a, b),
                textos,
                a,
                b,
            ) by {
                assert(heuristica_aceitavel(textos, a, b));
                assert(self.distancia_heuristica(a, b) == tabela[a]@[b]);
                assert(distancia_bem_formada(old(self).distancia_heuristica(a, b)));
            }
            assert forall|a: int, b: int|
                0 <= a < n && 0 <= b < self.conexoes_de(a).len() implies conexao_bem_formada(
                #[trigger] self.conexoes_de(a)[b],
                n as int,
            ) by {
                assert(self.conexoes_de(a)[b] == old(self).conexoes_de(a)[b]);
            }
        }
        Ok(())
    }

    /// Takes the connections from the records of the table of real distances
    /// and of the table of lines. The travel time of a connection is that of
    /// its distance.
    pub fn aplicar_conexoes(
        &mut self,
        registros_distancias: &Vec<Vec<String>>,
        registros_linhas: &Vec<Vec<String>>,
    ) -> (resultado: Result<(), ErroDeCarga>)
        requires
            old(self).bem_formado(),
        ensures
            conexoes_aplicadas(
                *old(self),
                registros_como_texto(registros_distancias@),
                registros_como_texto(registros_linhas@),
                resultado,
                *final(self),
            ),
    {
        let n = self.estacoes.len();
        let ghost distancias = registros_como_texto(registros_distancias@);
        let ghost linhas = registros_como_texto(registros_linhas@);
        let mut nova: Vec<Vec<Conexao>> = Vec::new();
        let mut i: usize = 0;
        while i < n
            invariant
                i <= n,
                n == self.numero_estacoes(),
                *self == *old(self),
                self.bem_formado(),
                distancias == registros_como_texto(registros_distancias@),
                linhas == registros_como_texto(registros_linhas@),
                nova@.len() == i,
                forall|a: int, b: int|
                    0 <= a < i && 0 <= b < n ==> #[trigger] conexao_aceitavel(distancias, linhas, a, b),
                forall|a: int|
                    0 <= a < i ==> (#[trigger] nova@[a])@ == self.conexoes_de(a) + conexoes_lidas(
                        distancias,
                        linhas,
                        a,
                        n as int,
                    ),
                forall|a: int, b: int|
                    0 <= a < i && 0 <= b < nova@[a]@.len() ==> conexao_bem_formada(
                        #[trigger] nova@[a]@[b],
                        n as int,
                    ),
            decreases n - i,
        {
            let mut conexoes: Vec<Conexao> = Vec::new();
            let antigas = &self.lista_adjacencia[i];
            let mut c: usize = 0;
            while c < antigas.len()
                invariant
                    i < n,
                    n == self.numero_estacoes(),
                    self.bem_formado(),
                    antigas@ == self.conexoes_de(i as int),
                    c <= antigas@.len(),
                    conexoes@ == antigas@.take(c as int),
                    forall|b: int|
                        0 <= b < conexoes@.len() ==> conexao_bem_formada(
                            #[trigger] conexoes@[b],
                            n as int,
                        ),
                decreases antigas@.len() - c,
            {
                proof {
                    assert(conexao_bem_formada(self.conexoes_de(i as int)[c as int], n as int));
                }
                conexoes.push(antigas[c]);
                proof {
                    assert(conexoes@ =~= antigas@.take(c + 1));
                }
                c = c + 1;
            }
            proof {
                assert(antigas@.take(c as int) =~= antigas@);
                assert(conexoes@ =~= self.conexoes_de(i as int) + conexoes_lidas(
                    distancias,
                    linhas,
                    i as int,
                    0,
                ));
            }
            let mut j: usize = 0;
            while j < n
                invariant
                    i < n,
                    j <= n,
                    n == self.numero_estacoes(),
                    *self == *old(self),
                    self.bem_formado(),
                    distancias == registros_como_texto(registros_distancias@),
                    linhas == registros_como_texto(registros_linhas@),
                    forall|a: int, b: int|
                        0 <= a < i && 0 <= b < n ==> #[trigger] conexao_aceitavel(
                            distancias,
                            linhas,
                            a,
                            b,
                        ),
                    forall|b: int|
                        0 <= b < j ==> #[trigger] conexao_aceitavel(distancias, linhas, i as int, b),
                    conexoes@ == self.conexoes_de(i as int) + conexoes_lidas(
                        distancias,
                        linhas,
                        i as int,
                        j as int,
                    ),
                    forall|b: int|
                        0 <= b < conexoes@.len() ==> conexao_bem_formada(
                            #[trigger] conexoes@[b],
                            n as int,
                        ),
                decreases n - j,
            {
                let ghost lidas = conexoes_lidas(distancias, linhas, i as int, j as int);
                let mut nova_conexao: Option<Conexao> = None;
                if i != j {
                    match ler_linha(registros_linhas, i, j) {
                        Some(cor_linha) => {
                            match ler_distancia(registros_distancias, i, j) {
                                Some(d) => {
                                    if d > 0 {
                                        if d > LIMITE_TEMPO_MINUTOS / MINUTOS_POR_KM {
                                            proof {
                                                assert(!conexao_aceitavel(
                                                    distancias,
                                                    linhas,
                                                    i as int,
                                                    j as int,
                                                ));
                                            }
                                            return Err(
                                                ErroDeCarga::ValorForaDoLimite { linha: i, coluna: j },
                                            );
                                        }
                                        nova_conexao = Some(
                                            Conexao {
                                                para_estacao: j,
                                                cor_linha,
                                                distancia_km: d,
                                                tempo_minutos: d * MINUTOS_POR_KM,
                                            },
                                        );
                                    }
                                },
                                None => {},
                            }
                        },
                        None => {},
                    }
                }
                proof {
                    assert(nova_conexao == conexao_lida(distancias, linhas, i as int, j as int));
                    assert(conexao_aceitavel(distancias, linhas, i as int, j as int));
                }
                match nova_conexao {
                    Some(conexao) => {
                        conexoes.push(conexao);
                        proof {
                            assert(conexoes@ =~= self.conexoes_de(i as int) + lidas.push(conexao));
                        }
                    },
                    None => {},
                }
                j = j + 1;
            }
            nova.push(conexoes);
            i = i + 1;
        }
        self.lista_adjacencia = nova;
        proof {
            assert forall|a: int, b: int| 0 <= a < n && 0 <= b < n implies distancia_bem_formada(
                #[trigger] self.distancia_heuristica(a, b),
            ) by {
                assert(distancia_bem_formada(old(self).distancia_heuristica(a, b)));
            }
            assert forall|a: int, b: int|
                0 <= a < n && 0 <= b < self.conexoes_de(a).len() implies conexao_bem_formada(
                #[trigger] self.conexoes_de(a)[b],
                n as int,
            ) by {
                assert(self.conexoes_de(a)[b] == nova@[a]@[b]);
            }
        }
        Ok(())
    }

    /// Loads the heuristic distances from the bytes of their table. Only the
    /// records of the stations of the graph are looked at. Where the reader
    /// gives an error for one of them, nothing is loaded.
    pub fn carregar_distancias_heuristicas(&mut self, conteudo: &[u8]) -> (resultado: Result<(), ErroDeCarga>)
        requires
            old(self).bem_formado(),
        ensures
            match resultado {
                Err(ErroDeCarga::RegistroInvalido { registro }) => *final(self) == *old(self)
                    && primeiro_invalido(
                    registros_csv(conteudo@),
                    old(self).numero_estacoes(),
                    registro as int,
                ),
                _ => todos_validos(registros_csv(conteudo@), old(self).numero_estacoes())
                    && heuristicas_aplicadas(
                    *old(self),
                    registros_aproveitados(registros_csv(conteudo@), old(self).numero_estacoes()),
                    resultado,
                    *final(self),
                ),
            },
    {
        let lidos = ler_registros_csv(conteudo);
        match aproveitar_registros(&lidos, self.estacoes.len()) {
            Ok(registros) => self.aplicar_distancias_heuristicas(&registros),
            Err(erro) => Err(erro),
        }
    }

    /// Loads the connections from the bytes of the table of real distances
    /// and of the table of lines. Only the records of the stations of the
    /// graph are looked at. Where the reader gives an error for one of them,
    /// in the table of distances first, nothing is loaded.
    pub fn carregar_conexoes(&mut self, conteudo_distancias: &[u8], conteudo_linhas: &[u8]) -> (resultado:
        Result<(), ErroDeCarga>)
        requires
            old(self).bem_formado(),
        ensures
            ({
                let n = old(self).numero_estacoes();
                let distancias = registros_csv(conteudo_distancias@);
                let linhas = registros_csv(conteudo_linhas@);
                match resultado {
                    Err(ErroDeCarga::RegistroInvalido { registro }) => *final(self) == *old(self) && (
                    primeiro_invalido(distancias, n, registro as int) || (todos_validos(distancias, n)
                        && primeiro_invalido(linhas, n, registro as int))),
                    _ => todos_validos(distancias, n) && todos_validos(linhas, n)
                        && conexoes_aplicadas(
                        *old(self),
                        registros_aproveitados(distancias, n),
                        registros_aproveitados(linhas, n),
                        resultado,
                        *final(self),
                    ),
                }
            }),
    {
        let n = self.estacoes.len();
        let lidos_distancias = ler_registros_csv(conteudo_distancias);
        let registros_distancias = match aproveitar_registros(&lidos_distancias, n) {
            Ok(registros) => registros,
            Err(erro) => {
                return Err(erro);
            },
        };
        let lidos_linhas = ler_registros_csv(conteudo_linhas);
        let registros_linhas = match aproveitar_registros(&lidos_linhas, n) {
            Ok(registros) => registros,
            Err(erro) => {
                return Err(erro);
            },
        };
        self.aplicar_conexoes(&registros_distancias, &registros_linhas)
    }
}

} // verus!
