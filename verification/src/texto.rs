//! Decimal text: writing and reading natural numbers, and the station labels
//! (`E1`, `E2`, ...) that the analysis lines of a search start with.

use vstd::prelude::*;
use vstd::string::*;

verus! {

/// Whether `c` is one of the ASCII digits `0` to `9`.
pub open spec fn eh_digito(c: char) -> bool {
    48 <= c as u32 && c as u32 <= 57
}

/// The number that an ASCII digit stands for.
pub open spec fn valor_digito(c: char) -> nat {
    (c as u32 - 48) as nat
}

/// The ASCII digit of a number below ten.
pub open spec fn caractere_do_digito(d: nat) -> char {
    if d == 0 {
        '0'
    } else if d == 1 {
        '1'
    } else if d == 2 {
        '2'
    } else if d == 3 {
        '3'
    } else if d == 4 {
        '4'
    } else if d == 5 {
        '5'
    } else if d == 6 {
        '6'
    } else if d == 7 {
        '7'
    } else if d == 8 {
        '8'
    } else {
        '9'
    }
}

/// The decimal digits of `n`, most significant first, without leading zeros.
pub open spec fn digitos(n: nat) -> Seq<char>
    decreases n,
{
    if n < 10 {
        seq![caractere_do_digito(n)]
    } else {
        digitos(n / 10).push(caractere_do_digito(n % 10))
    }
}

/// The number written by a sequence of decimal digits, most significant first.
pub open spec fn valor_decimal(s: Seq<char>) -> nat
    decreases s.len(),
{
    if s.len() == 0 {
        0
    } else {
        valor_decimal(s.drop_last()) * 10 + valor_digito(s.last())
    }
}

/// Whether every character of `s` is a decimal digit.
pub open spec fn so_digitos(s: Seq<char>) -> bool {
    forall|i: int| 0 <= i < s.len() ==> eh_digito(#[trigger] s[i])
}

/// The natural number that `s` denotes: an optional `+`, then one or more
/// decimal digits whose value fits in a `usize`. Anything else denotes nothing.
pub open spec fn natural_de_texto(s: Seq<char>) -> Option<nat> {
    let d = if s.len() > 0 && s[0] == '+' {
        s.drop_first()
    } else {
        s
    };
    if d.len() > 0 && so_digitos(d) && valor_decimal(d) <= usize::MAX {
        Some(valor_decimal(d))
    } else {
        None
    }
}

/// The position of the first `c` in `s`, or the length of `s` where there is none.
pub open spec fn primeira_posicao(s: Seq<char>, c: char) -> int
    decreases s.len(),
{
    if s.len() == 0 {
        0
    } else if s[0] == c {
        0
    } else {
        1 + primeira_posicao(s.drop_first(), c)
    }
}

/// The zero-based station that an analysis line speaks of. The line holds an
/// `E`, then the one-based station number, then a colon: `E7: ...` is station 6.
/// The first `E` and the first colon of the line delimit the number.
pub open spec fn id_estacao_de_info(s: Seq<char>) -> Option<nat> {
    let e = primeira_posicao(s, 'E');
    let p = primeira_posicao(s, ':');
    if e < s.len() && p < s.len() && p > e + 1 {
        match natural_de_texto(s.subrange(e + 1, p)) {
            Some(v) => if v > 0 {
                Some((v - 1) as nat)
            } else {
                None
            },
            None => None,
        }
    } else {
        None
    }
}

/// A prefix of a digit string is worth no more than the whole string.
pub proof fn lema_prefixo_nao_excede(s: Seq<char>, k: int)
    requires
        0 <= k <= s.len(),
    ensures
        valor_decimal(s.subrange(0, k)) <= valor_decimal(s),
    decreases s.len() - k,
{
    if k == s.len() {
        assert(s.subrange(0, k) =~= s);
    } else {
        lema_prefixo_nao_excede(s.drop_last(), k);
        assert(s.drop_last().subrange(0, k) =~= s.subrange(0, k));
    }
}

/// What `primeira_posicao` returns is where the first `c` stands, or the length.
pub proof fn lema_primeira_posicao(s: Seq<char>, c: char)
    ensures
        0 <= primeira_posicao(s, c) <= s.len(),
        primeira_posicao(s, c) < s.len() ==> s[primeira_posicao(s, c)] == c,
        forall|j: int| 0 <= j < primeira_posicao(s, c) ==> s[j] != c,
    decreases s.len(),
{
    if s.len() > 0 && s[0] != c {
        let t = s.drop_first();
        lema_primeira_posicao(t, c);
        assert forall|j: int| 0 <= j < primeira_posicao(s, c) implies s[j] != c by {
            if j > 0 {
                assert(s[j] == t[j - 1]);
            }
        }
    }
}

/// The position at which `c` first stands in `s` is `primeira_posicao(s, c)`.
pub proof fn lema_primeira_posicao_unica(s: Seq<char>, c: char, i: int)
    requires
        0 <= i <= s.len(),
        i < s.len() ==> s[i] == c,
        forall|j: int| 0 <= j < i ==> s[j] != c,
    ensures
        primeira_posicao(s, c) == i,
{
    lema_primeira_posicao(s, c);
}

/// Writing a number and reading it back gives the number.
pub proof fn lema_digitos_ida_e_volta(n: nat)
    ensures
        digitos(n).len() > 0,
        so_digitos(digitos(n)),
        valor_decimal(digitos(n)) == n,
    decreases n,
{
    if n < 10 {
        let s = digitos(n);
        assert(s.drop_last() =~= Seq::<char>::empty());
        assert(valor_decimal(s.drop_last()) == 0);
    } else {
        lema_digitos_ida_e_volta(n / 10);
        let s = digitos(n);
        assert(s.drop_last() =~= digitos(n / 10));
        assert forall|i: int| 0 <= i < s.len() implies eh_digito(#[trigger] s[i]) by {
            if i < s.len() - 1 {
                assert(s[i] == digitos(n / 10)[i]);
            }
        }
    }
}

fn texto_do_digito(d: usize) -> (r: &'static str)
    requires
        d < 10,
    ensures
        r@ == seq![caractere_do_digito(d as nat)],
{
    proof {
        reveal_strlit("0");
        reveal_strlit("1");
        reveal_strlit("2");
        reveal_strlit("3");
        reveal_strlit("4");
        reveal_strlit("5");
        reveal_strlit("6");
        reveal_strlit("7");
        reveal_strlit("8");
        reveal_strlit("9");
    }
    let r = match d {
        0 => "0",
        1 => "1",
        2 => "2",
        3 => "3",
        4 => "4",
        5 => "5",
        6 => "6",
        7 => "7",
        8 => "8",
        _ => "9",
    };
    assert(r@ =~= seq![caractere_do_digito(d as nat)]);
    r
}

/// Writes `n` in decimal.
pub fn formatar_inteiro(n: u64) -> (r: String)
    ensures
        r@ == digitos(n as nat),
    decreases n,
{
    if n < 10 {
        String::from_str(texto_do_digito(n as usize))
    } else {
        let mut s = formatar_inteiro(n / 10);
        s.append(texto_do_digito((n % 10) as usize));
        proof {
            assert(s@ =~= digitos((n / 10) as nat).push(caractere_do_digito((n % 10) as nat)));
        }
        s
    }
}

/// Writes `n` in decimal.
pub fn formatar_natural(n: usize) -> (r: String)
    ensures
        r@ == digitos(n as nat),
{
    formatar_inteiro(n as u64)
}

/// A time in thousandths of a minute as minutes with one decimal place,
/// rounded to the nearest tenth, halves upward.
pub open spec fn texto_de_minutos(tempo: nat) -> Seq<char> {
    let decimos = (tempo + 50) / 100;
    digitos(decimos / 10) + seq!['.'] + digitos(decimos % 10)
}

/// Writes a time in thousandths of a minute as minutes with one decimal place.
pub fn formatar_minutos(tempo: u64) -> (r: String)
    ensures
        r@ == texto_de_minutos(tempo as nat),
{
    let decimos = tempo / 100 + if tempo % 100 >= 50 {
        1
    } else {
        0
    };
    let mut r = formatar_inteiro(decimos / 10);
    r.append(".");
    let fracao = formatar_inteiro(decimos % 10);
    r.append(fracao.as_str());
    proof {
        reveal_strlit(".");
        assert("."@ =~= seq!['.']);
    }
    r
}

/// Reads the natural number written in the characters `inicio..fim` of `texto`.
pub fn analisar_natural(texto: &str, inicio: usize, fim: usize) -> (r: Option<usize>)
    requires
        inicio <= fim <= texto@.len(),
    ensures
        match natural_de_texto(texto@.subrange(inicio as int, fim as int)) {
            Some(v) => r == Some(v as usize),
            None => r is None,
        },
{
    let ghost s = texto@.subrange(inicio as int, fim as int);
    let mut i = inicio;
    if i < fim && texto.get_char(i) == '+' {
        i = i + 1;
    }
    let ghost d = texto@.subrange(i as int, fim as int);
    proof {
        if s.len() > 0 && s[0] == '+' {
            assert(d =~= s.drop_first());
        } else {
            assert(d =~= s);
        }
    }
    if i == fim {
        return None;
    }
    let primeiro = i;
    let mut acumulado: usize = 0;
    while i < fim
        invariant
            inicio <= primeiro <= i <= fim <= texto@.len(),
            s == texto@.subrange(inicio as int, fim as int),
            d == texto@.subrange(primeiro as int, fim as int),
            d == if s.len() > 0 && s[0] == '+' {
                s.drop_first()
            } else {
                s
            },
            so_digitos(d.subrange(0, i - primeiro)),
            acumulado == valor_decimal(d.subrange(0, i - primeiro)),
        decreases fim - i,
    {
        let c = texto.get_char(i);
        let ghost antes = d.subrange(0, i - primeiro);
        let ghost depois = d.subrange(0, i - primeiro + 1);
        proof {
            assert(d[i - primeiro] == c);
            assert(depois.drop_last() =~= antes);
            assert(depois.last() == c);
        }
        let codigo = c as u32;
        if codigo < 48 || codigo > 57 {
            proof {
                assert(!eh_digito(d[i - primeiro]));
            }
            return None;
        }
        let valor = (codigo - 48) as usize;
        if acumulado > (usize::MAX - valor) / 10 {
            proof {
                assert(valor_decimal(depois) > usize::MAX);
                lema_prefixo_nao_excede(d, i - primeiro + 1);
            }
            return None;
        }
        acumulado = acumulado * 10 + valor;
        proof {
            assert forall|j: int| 0 <= j < depois.len() implies eh_digito(#[trigger] depois[j]) by {
                if j < antes.len() {
                    assert(depois[j] == antes[j]);
                }
            }
        }
        i = i + 1;
    }
    proof {
        assert(d.subrange(0, i - primeiro) =~= d);
    }
    Some(acumulado)
}

/// The position of the first `c` in `texto`, counted in characters; the
/// length of `texto` where it holds no `c`.
fn buscar_caractere(texto: &str, c: char) -> (r: usize)
    ensures
        r == primeira_posicao(texto@, c),
        r <= texto@.len(),
{
    let n = texto.unicode_len();
    let mut i: usize = 0;
    while i < n
        invariant
            i <= n,
            n == texto@.len(),
            forall|j: int| 0 <= j < i ==> texto@[j] != c,
        decreases n - i,
    {
        if texto.get_char(i) == c {
            proof {
                lema_primeira_posicao_unica(texto@, c, i as int);
            }
            return i;
        }
        i = i + 1;
    }
    proof {
        lema_primeira_posicao_unica(texto@, c, n as int);
    }
    n
}

/// Extracts the zero-based station from an analysis line such as
/// `E7: already explored`.
pub fn extrair_id_estacao_de_info(vizinho_info: &str) -> (r: Option<usize>)
    ensures
        match id_estacao_de_info(vizinho_info@) {
            Some(id) => r == Some(id as usize),
            None => r is None,
        },
{
    let n = vizinho_info.unicode_len();
    let inicio_e = buscar_caractere(vizinho_info, 'E');
    let pos_dois_pontos = buscar_caractere(vizinho_info, ':');
    if inicio_e < n && pos_dois_pontos < n && pos_dois_pontos > inicio_e + 1 {
        match analisar_natural(vizinho_info, inicio_e + 1, pos_dois_pontos) {
            Some(um_baseado) => {
                if um_baseado > 0 {
                    Some(um_baseado - 1)
                } else {
                    None
                }
            },
            None => None,
        }
    } else {
        None
    }
}

} // verus!
