//! Reading the cells of the data tables: decimal numbers as fixed-point
//! values of three decimal places, and line codes.

use crate::texto::{eh_digito, natural_de_texto, so_digitos, valor_decimal};
use vstd::prelude::*;
use vstd::string::*;

verus! {

/// Whether `c` is white space, as Unicode defines it.
pub open spec fn eh_espaco(c: char) -> bool {
    let u = c as u32;
    (9 <= u && u <= 13) || u == 32 || u == 0x85 || u == 0xA0 || u == 0x1680 || (0x2000 <= u && u
        <= 0x200A) || u == 0x2028 || u == 0x2029 || u == 0x202F || u == 0x205F || u == 0x3000
}

/// `s` without the white space at its start.
pub open spec fn aparar_inicio(s: Seq<char>) -> Seq<char>
    decreases s.len(),
{
    if s.len() > 0 && eh_espaco(s[0]) {
        aparar_inicio(s.drop_first())
    } else {
        s
    }
}

/// `s` without the white space at its end.
pub open spec fn aparar_fim(s: Seq<char>) -> Seq<char>
    decreases s.len(),
{
    if s.len() > 0 && eh_espaco(s.last()) {
        aparar_fim(s.drop_last())
    } else {
        s
    }
}

/// `s` without the white space at its start and at its end.
pub open spec fn aparar(s: Seq<char>) -> Seq<char> {
    aparar_fim(aparar_inicio(s))
}

/// Whether `c` separates the whole part of a decimal number from its fraction.
pub open spec fn eh_separador(c: char) -> bool {
    c == '.' || c == ','
}

/// The position of the first separator in `s`, or the length of `s` where
/// there is none.
pub open spec fn posicao_do_separador(s: Seq<char>) -> int
    decreases s.len(),
{
    if s.len() == 0 {
        0
    } else if eh_separador(s[0]) {
        0
    } else {
        1 + posicao_do_separador(s.drop_first())
    }
}

/// The thousandths that the digits of a fraction stand for. Digits after the
/// third are dropped.
pub open spec fn milesimos(fracao: Seq<char>) -> nat {
    if fracao.len() >= 3 {
        valor_decimal(fracao.take(3))
    } else if fracao.len() == 2 {
        valor_decimal(fracao) * 10
    } else if fracao.len() == 1 {
        valor_decimal(fracao) * 100
    } else {
        0
    }
}

/// The number of thousandths that a cell denotes. White space around the
/// number is passed over. The number is an optional `+`, the digits of the
/// whole part, and optionally a `.` or a `,` followed by the digits of the
/// fraction; at least one digit must be there. Any other text denotes
/// nothing.
pub open spec fn decimal_de_texto(s: Seq<char>) -> Option<nat> {
    let t = aparar(s);
    let d = if t.len() > 0 && t[0] == '+' {
        t.drop_first()
    } else {
        t
    };
    let p = posicao_do_separador(d);
    let inteira = d.take(p);
    let fracao = if p < d.len() {
        d.skip(p + 1)
    } else {
        Seq::<char>::empty()
    };
    if so_digitos(inteira) && so_digitos(fracao) && inteira.len() + fracao.len() > 0 {
        Some(valor_decimal(inteira) * 1000 + milesimos(fracao))
    } else {
        None
    }
}

/// The line code that a cell denotes: the natural number written in it,
/// white space around it passed over.
pub open spec fn codigo_de_texto(s: Seq<char>) -> Option<nat> {
    natural_de_texto(aparar(s))
}

proof fn lema_aparar_inicio(s: Seq<char>, a: int)
    requires
        0 <= a <= s.len(),
        forall|k: int| 0 <= k < a ==> eh_espaco(s[k]),
        a < s.len() ==> !eh_espaco(s[a]),
    ensures
        aparar_inicio(s) == s.skip(a),
    decreases a,
{
    if a == 0 {
        assert(s.skip(0) =~= s);
    } else {
        let resto = s.drop_first();
        assert forall|k: int| 0 <= k < a - 1 implies eh_espaco(resto[k]) by {
            assert(resto[k] == s[k + 1]);
        }
        lema_aparar_inicio(resto, a - 1);
        assert(resto.skip(a - 1) =~= s.skip(a));
    }
}

proof fn lema_aparar_fim(s: Seq<char>, b: int)
    requires
        0 <= b <= s.len(),
        forall|k: int| b <= k < s.len() ==> eh_espaco(s[k]),
        b > 0 ==> !eh_espaco(s[b - 1]),
    ensures
        aparar_fim(s) == s.take(b),
    decreases s.len() - b,
{
    if b == s.len() {
        assert(s.take(b) =~= s);
    } else {
        let resto = s.drop_last();
        lema_aparar_fim(resto, b);
        assert(resto.take(b) =~= s.take(b));
    }
}

proof fn lema_posicao_do_separador(s: Seq<char>, p: int)
    requires
        0 <= p <= s.len(),
        forall|k: int| 0 <= k < p ==> !eh_separador(s[k]),
        p < s.len() ==> eh_separador(s[p]),
    ensures
        posicao_do_separador(s) == p,
    decreases p,
{
    if p > 0 {
        let resto = s.drop_first();
        assert forall|k: int| 0 <= k < p - 1 implies !eh_separador(resto[k]) by {
            assert(resto[k] == s[k + 1]);
        }
        lema_posicao_do_separador(resto, p - 1);
    }
}

/// The characters of `texto`.
pub fn caracteres(texto: &str) -> (r: Vec<char>)
    ensures
        r@ == texto@,
{
    let n = texto.unicode_len();
    let mut r: Vec<char> = Vec::new();
    let mut i: usize = 0;
    while i < n
        invariant
            i <= n,
            n == texto@.len(),
            r@ == texto@.take(i as int),
        decreases n - i,
    {
        r.push(texto.get_char(i));
        proof {
            assert(r@ =~= texto@.take(i + 1));
        }
        i = i + 1;
    }
    proof {
        assert(texto@.take(n as int) =~= texto@);
    }
    r
}

fn espaco(c: char) -> (r: bool)
    ensures
        r == eh_espaco(c),
{
    let u = c as u32;
    (9 <= u && u <= 13) || u == 32 || u == 0x85 || u == 0xA0 || u == 0x1680 || (0x2000 <= u && u
        <= 0x200A) || u == 0x2028 || u == 0x2029 || u == 0x202F || u == 0x205F || u == 0x3000
}

/// Where the text of `v` begins and ends once the white space around it is
/// passed over.
fn limites_aparados(v: &Vec<char>) -> (r: (usize, usize))
    ensures
        r.0 <= r.1 <= v@.len(),
        v@.subrange(r.0 as int, r.1 as int) == aparar(v@),
{
    let n = v.len();
    let mut a: usize = 0;
    while a < n && espaco(v[a])
        invariant
            a <= n,
            n == v@.len(),
            forall|k: int| 0 <= k < a ==> eh_espaco(v@[k]),
        decreases n - a,
    {
        a = a + 1;
    }
    let mut b: usize = n;
    while b > a && espaco(v[b - 1])
        invariant
            a <= b <= n,
            n == v@.len(),
            forall|k: int| b <= k < n ==> eh_espaco(v@[k]),
        decreases b,
    {
        b = b - 1;
    }
    proof {
        lema_aparar_inicio(v@, a as int);
        let meio = v@.skip(a as int);
        assert forall|k: int| b - a <= k < meio.len() implies eh_espaco(meio[k]) by {
            assert(meio[k] == v@[k + a]);
        }
        if b > a {
            assert(meio[b - a - 1] == v@[b - 1]);
        }
        lema_aparar_fim(meio, b - a);
        assert(meio.take(b - a) =~= v@.subrange(a as int, b as int));
    }
    (a, b)
}

/// Reads the digits `inicio..fim` of `v`. Returns whether they are all
/// digits, and their value, or `None` in its place where the value does not
/// fit.
fn ler_digitos(v: &Vec<char>, inicio: usize, fim: usize) -> (r: (bool, Option<u64>))
    requires
        inicio <= fim <= v@.len(),
    ensures
        r.0 == so_digitos(v@.subrange(inicio as int, fim as int)),
        r.0 ==> match r.1 {
            Some(valor) => valor == valor_decimal(v@.subrange(inicio as int, fim as int)),
            None => valor_decimal(v@.subrange(inicio as int, fim as int)) > u64::MAX,
        },
{
    let ghost d = v@.subrange(inicio as int, fim as int);
    let mut i = inicio;
    let mut acumulado: u64 = 0;
    let mut estourou = false;
    while i < fim
        invariant
            inicio <= i <= fim <= v@.len(),
            d == v@.subrange(inicio as int, fim as int),
            so_digitos(d.take(i - inicio)),
            !estourou ==> acumulado == valor_decimal(d.take(i - inicio)),
            estourou ==> valor_decimal(d.take(i - inicio)) > u64::MAX,
        decreases fim - i,
    {
        let c = v[i];
        let ghost antes = d.take(i - inicio);
        let ghost depois = d.take(i - inicio + 1);
        proof {
            assert(d[i - inicio] == c);
            assert(depois.drop_last() =~= antes);
            assert(depois.last() == c);
        }
        let codigo = c as u32;
        if codigo < 48 || codigo > 57 {
            proof {
                assert(!eh_digito(d[i - inicio]));
            }
            return (false, None);
        }
        let valor = (codigo - 48) as u64;
        if !estourou {
            if acumulado > (u64::MAX - valor) / 10 {
                estourou = true;
            } else {
                acumulado = acumulado * 10 + valor;
            }
        }
        proof {
            assert forall|j: int| 0 <= j < depois.len() implies eh_digito(#[trigger] depois[j]) by {
                if j < antes.len() {
                    assert(depois[j] == antes[j]);
                }
            }
        }
        i = i + 1;
    }
    proof {
        assert(d.take(i - inicio) =~= d);
    }
    if estourou {
        (true, None)
    } else {
        (true, Some(acumulado))
    }
}

/// Reads the digits `inicio..fim` of `v` as the fraction of a number.
/// Returns whether they are all digits, and the thousandths that they stand
/// for.
fn ler_fracao(v: &Vec<char>, inicio: usize, fim: usize) -> (r: (bool, u64))
    requires
        inicio <= fim <= v@.len(),
    ensures
        r.0 == so_digitos(v@.subrange(inicio as int, fim as int)),
        r.0 ==> r.1 == milesimos(v@.subrange(inicio as int, fim as int)),
        r.1 <= 999,
{
    let ghost fracao = v@.subrange(inicio as int, fim as int);
    let meio = if fim - inicio >= 3 {
        inicio + 3
    } else {
        fim
    };
    let (cabeca_ok, valor) = ler_digitos(v, inicio, meio);
    let (cauda_ok, _) = ler_digitos(v, meio, fim);
    let ghost cabeca = v@.subrange(inicio as int, meio as int);
    let ghost cauda = v@.subrange(meio as int, fim as int);
    proof {
        if so_digitos(fracao) {
            assert forall|k: int| 0 <= k < cabeca.len() implies eh_digito(#[trigger] cabeca[k]) by {
                assert(cabeca[k] == fracao[k]);
            }
            assert forall|k: int| 0 <= k < cauda.len() implies eh_digito(#[trigger] cauda[k]) by {
                assert(cauda[k] == fracao[k + cabeca.len()]);
            }
        }
        if so_digitos(cabeca) && so_digitos(cauda) {
            assert forall|k: int| 0 <= k < fracao.len() implies eh_digito(#[trigger] fracao[k]) by {
                if k < cabeca.len() {
                    assert(fracao[k] == cabeca[k]);
                } else {
                    assert(fracao[k] == cauda[k - cabeca.len()]);
                }
            }
        }
    }
    if !cabeca_ok || !cauda_ok {
        return (false, 0);
    }
    proof {
        if fracao.len() >= 3 {
            assert(cabeca =~= fracao.take(3));
        } else {
            assert(cabeca =~= fracao);
        }
        lema_valor_limitado(cabeca);
    }
    let digitos = meio - inicio;
    match valor {
        Some(m) => {
            if digitos >= 3 {
                (true, m)
            } else if digitos == 2 {
                (true, m * 10)
            } else if digitos == 1 {
                (true, m * 100)
            } else {
                (true, 0)
            }
        },
        None => (true, 0),
    }
}

/// Where the number of a cell stands in `v`: the position after the sign,
/// the position of the separator, and the end. Without a separator the
/// second and the third are the same.
fn localizar_numero(v: &Vec<char>) -> (r: (usize, usize, usize))
    ensures
        r.0 <= r.1 <= r.2 <= v@.len(),
        ({
            let t = aparar(v@);
            let d = if t.len() > 0 && t[0] == '+' {
                t.drop_first()
            } else {
                t
            };
            &&& d == v@.subrange(r.0 as int, r.2 as int)
            &&& posicao_do_separador(d) == r.1 - r.0
        }),
{
    let (a, b) = limites_aparados(v);
    let ghost t = aparar(v@);
    let inicio = if a < b && v[a] == '+' {
        a + 1
    } else {
        a
    };
    let ghost d = v@.subrange(inicio as int, b as int);
    proof {
        assert(t == v@.subrange(a as int, b as int));
        if t.len() > 0 && t[0] == '+' {
            assert(d =~= t.drop_first());
        } else {
            assert(d =~= t);
        }
    }
    let mut p = inicio;
    while p < b && !(v[p] == '.' || v[p] == ',')
        invariant
            inicio <= p <= b <= v@.len(),
            d == v@.subrange(inicio as int, b as int),
            forall|k: int| 0 <= k < p - inicio ==> !eh_separador(d[k]),
        decreases b - p,
    {
        p = p + 1;
    }
    proof {
        lema_posicao_do_separador(d, p - inicio);
    }
    (inicio, p, b)
}

/// Reads a cell as a number of thousandths. A number too large for 64 bits
/// comes back as `u64::MAX`.
pub fn analisar_decimal(texto: &str) -> (r: Option<u64>)
    ensures
        match decimal_de_texto(texto@) {
            Some(v) => r == Some(
                if v <= u64::MAX {
                    v as u64
                } else {
                    u64::MAX
                },
            ),
            None => r is None,
        },
{
    let v = caracteres(texto);
    let (inicio, p, b) = localizar_numero(&v);
    let ghost d = v@.subrange(inicio as int, b as int);
    let ghost inteira = d.take(p - inicio);
    let ghost fracao = if p < b {
        d.skip(p - inicio + 1)
    } else {
        Seq::<char>::empty()
    };
    let inicio_fracao = if p < b {
        p + 1
    } else {
        b
    };
    proof {
        assert(inteira =~= v@.subrange(inicio as int, p as int));
        assert(fracao =~= v@.subrange(inicio_fracao as int, b as int));
    }
    let (inteira_ok, valor_inteiro) = ler_digitos(&v, inicio, p);
    let (fracao_ok, milesimos_lidos) = ler_fracao(&v, inicio_fracao, b);
    if !inteira_ok || !fracao_ok || (p == inicio && inicio_fracao == b) {
        return None;
    }
    match valor_inteiro {
        Some(inteiro) => {
            if inteiro > (u64::MAX - milesimos_lidos) / 1000 {
                Some(u64::MAX)
            } else {
                Some(inteiro * 1000 + milesimos_lidos)
            }
        },
        None => Some(u64::MAX),
    }
}

/// A run of at most three digits is worth less than a thousand.
proof fn lema_valor_limitado(s: Seq<char>)
    requires
        so_digitos(s),
        s.len() <= 3,
    ensures
        s.len() == 0 ==> valor_decimal(s) == 0,
        s.len() == 1 ==> valor_decimal(s) <= 9,
        s.len() == 2 ==> valor_decimal(s) <= 99,
        s.len() == 3 ==> valor_decimal(s) <= 999,
    decreases s.len(),
{
    if s.len() > 0 {
        let antes = s.drop_last();
        assert forall|k: int| 0 <= k < antes.len() implies eh_digito(#[trigger] antes[k]) by {
            assert(antes[k] == s[k]);
        }
        lema_valor_limitado(antes);
        assert(eh_digito(s[s.len() - 1]));
    }
}

/// Reads a cell as a line code.
pub fn analisar_codigo(texto: &str) -> (r: Option<usize>)
    ensures
        match codigo_de_texto(texto@) {
            Some(v) => r == Some(v as usize),
            None => r is None,
        },
{
    let v = caracteres(texto);
    let (a, b) = limites_aparados(&v);
    let inicio = if a < b && v[a] == '+' {
        a + 1
    } else {
        a
    };
    let ghost t = aparar(v@);
    let ghost d = v@.subrange(inicio as int, b as int);
    proof {
        assert(t == v@.subrange(a as int, b as int));
        if t.len() > 0 && t[0] == '+' {
            assert(d =~= t.drop_first());
        } else {
            assert(d =~= t);
        }
    }
    if inicio == b {
        return None;
    }
    let (ok, valor) = ler_digitos(&v, inicio, b);
    if !ok {
        return None;
    }
    match valor {
        Some(n) => {
            if n > usize::MAX as u64 {
                None
            } else {
                Some(n as usize)
            }
        },
        None => None,
    }
}

} // verus!
