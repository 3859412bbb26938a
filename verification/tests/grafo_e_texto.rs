use metro_paris_astar::decimal::{analisar_codigo, analisar_decimal, caracteres};
use metro_paris_astar::algoritmo_a_estrela::EstadoNoFronteira;
use metro_paris_astar::grafo_metro::{
    nome_da_estacao, Conexao, CorLinha, GrafoMetro, ResumoTrajeto, LIMITE_ESTACOES,
    LIMITE_TEMPO_MINUTOS, MILESIMOS, MINUTOS_POR_KM, NUMERO_ESTACOES, TEMPO_BALDEACAO_MINUTOS,
    VELOCIDADE_TREM_KMH,
};
use metro_paris_astar::texto::{
    analisar_natural, extrair_id_estacao_de_info, formatar_minutos, formatar_natural,
};

#[test]
fn linha_de_cada_codigo() {
    assert_eq!(CorLinha::de_inteiro(1), CorLinha::Azul);
    assert_eq!(CorLinha::de_inteiro(2), CorLinha::Amarela);
    assert_eq!(CorLinha::de_inteiro(3), CorLinha::Vermelha);
    assert_eq!(CorLinha::de_inteiro(4), CorLinha::Verde);
    assert_eq!(CorLinha::de_inteiro(0), CorLinha::Nenhuma);
    assert_eq!(CorLinha::de_inteiro(5), CorLinha::Nenhuma);
    assert_eq!(CorLinha::de_inteiro(255), CorLinha::Nenhuma);
}

#[test]
fn constantes_da_rede() {
    assert_eq!(NUMERO_ESTACOES, 14);
    assert_eq!(VELOCIDADE_TREM_KMH, 30);
    assert_eq!(MINUTOS_POR_KM, 2);
    assert_eq!(TEMPO_BALDEACAO_MINUTOS, 4 * MILESIMOS);
}

#[test]
fn grafo_novo_tem_quatorze_estacoes() {
    let grafo = GrafoMetro::novo();
    assert_eq!(grafo.estacoes.len(), 14);
    assert_eq!(grafo.lista_adjacencia.len(), 14);
    assert_eq!(grafo.distancias_heuristicas_km.len(), 14);
    for (i, estacao) in grafo.estacoes.iter().enumerate() {
        assert_eq!(estacao.id, i);
        assert_eq!(estacao.nome, format!("E{}", i + 1));
        assert!(grafo.lista_adjacencia[i].is_empty());
        assert_eq!(grafo.distancias_heuristicas_km[i], vec![None; 14]);
    }
    assert!(grafo.validar());
}

#[test]
fn id_da_estacao_pelo_nome() {
    let grafo = GrafoMetro::novo();
    assert_eq!(grafo.obter_id_estacao("E1"), Some(0));
    assert_eq!(grafo.obter_id_estacao("E10"), Some(9));
    assert_eq!(grafo.obter_id_estacao("E14"), Some(13));
    assert_eq!(grafo.obter_id_estacao("E15"), None);
    assert_eq!(grafo.obter_id_estacao("E0"), None);
    assert_eq!(grafo.obter_id_estacao("e1"), None);
    assert_eq!(grafo.obter_id_estacao(""), None);
}

#[test]
fn tempo_heuristico_e_o_dobro_da_distancia() {
    let mut grafo = GrafoMetro::com_estacoes(3);
    grafo.distancias_heuristicas_km[0][2] = Some(10_300);
    grafo.distancias_heuristicas_km[1][2] = Some(0);
    assert_eq!(grafo.obter_tempo_heuristico_minutos(0, 2), Some(20_600));
    assert_eq!(grafo.obter_tempo_heuristico_minutos(1, 2), Some(0));
    assert_eq!(grafo.obter_tempo_heuristico_minutos(2, 0), None);
}

#[test]
fn validacao_do_grafo() {
    let conexao = |para: usize, tempo: u64| Conexao {
        para_estacao: para,
        cor_linha: CorLinha::Azul,
        distancia_km: 0,
        tempo_minutos: tempo,
    };
    assert!(GrafoMetro::com_estacoes(0).validar());
    assert!(GrafoMetro::default().validar());

    let mut grafo = GrafoMetro::com_estacoes(3);
    grafo.lista_adjacencia[0].push(conexao(2, LIMITE_TEMPO_MINUTOS));
    grafo.distancias_heuristicas_km[0][1] = Some(LIMITE_TEMPO_MINUTOS / 2);
    assert!(grafo.validar());

    let mut fora = GrafoMetro::com_estacoes(3);
    fora.lista_adjacencia[1].push(conexao(3, 1));
    assert!(!fora.validar());

    let mut lento = GrafoMetro::com_estacoes(3);
    lento.lista_adjacencia[2].push(conexao(0, LIMITE_TEMPO_MINUTOS + 1));
    assert!(!lento.validar());

    let mut longe = GrafoMetro::com_estacoes(3);
    longe.distancias_heuristicas_km[2][2] = Some(LIMITE_TEMPO_MINUTOS / 2 + 1);
    assert!(!longe.validar());

    let mut curto = GrafoMetro::com_estacoes(3);
    curto.distancias_heuristicas_km[1].pop();
    assert!(!curto.validar());

    let mut sem_lista = GrafoMetro::com_estacoes(3);
    sem_lista.lista_adjacencia.pop();
    assert!(!sem_lista.validar());

    let mut sem_tabela = GrafoMetro::com_estacoes(3);
    sem_tabela.distancias_heuristicas_km.push(vec![None; 3]);
    assert!(!sem_tabela.validar());
    assert!(LIMITE_ESTACOES >= 14);
}

#[test]
fn numeros_escritos_em_decimal() {
    assert_eq!(formatar_natural(0), "0");
    assert_eq!(formatar_natural(7), "7");
    assert_eq!(formatar_natural(10), "10");
    assert_eq!(formatar_natural(14), "14");
    assert_eq!(formatar_natural(9_007_199), "9007199");
    assert_eq!(formatar_natural(usize::MAX), usize::MAX.to_string());
}

#[test]
fn numeros_lidos_de_um_trecho() {
    assert_eq!(analisar_natural("E12: x", 1, 3), Some(12));
    assert_eq!(analisar_natural("007", 0, 3), Some(7));
    assert_eq!(analisar_natural("+5", 0, 2), Some(5));
    assert_eq!(analisar_natural("+", 0, 1), None);
    assert_eq!(analisar_natural("-5", 0, 2), None);
    assert_eq!(analisar_natural("12a", 0, 3), None);
    assert_eq!(analisar_natural("12a", 0, 2), Some(12));
    assert_eq!(analisar_natural("12", 1, 1), None);
    assert_eq!(analisar_natural("1 2", 0, 3), None);
    let maximo = usize::MAX.to_string();
    assert_eq!(analisar_natural(&maximo, 0, maximo.len()), Some(usize::MAX));
    let demais = format!("{}0", maximo);
    assert_eq!(analisar_natural(&demais, 0, demais.len()), None);
    let um_a_mais = "18446744073709551616";
    if usize::MAX as u128 == u64::MAX as u128 {
        assert_eq!(analisar_natural(um_a_mais, 0, um_a_mais.len()), None);
    }
}

#[test]
fn escrever_e_ler_devolve_o_numero() {
    for n in [0usize, 1, 9, 10, 99, 100, 12_345, 999_999, usize::MAX] {
        let texto = formatar_natural(n);
        assert_eq!(analisar_natural(&texto, 0, texto.chars().count()), Some(n));
        assert_eq!(texto.parse::<usize>(), Ok(n));
    }
}

#[test]
fn estacao_de_uma_linha_de_analise() {
    assert_eq!(extrair_id_estacao_de_info("E7: já explorado"), Some(6));
    assert_eq!(extrair_id_estacao_de_info("E1: g=4.0, h=2.0, f=6.0 - ADICIONADO"), Some(0));
    assert_eq!(extrair_id_estacao_de_info("E14: já tem caminho melhor"), Some(13));
    assert_eq!(extrair_id_estacao_de_info("  E3: x"), Some(2));
    assert_eq!(extrair_id_estacao_de_info("é E3: x"), Some(2));
    assert_eq!(extrair_id_estacao_de_info("E+3: x"), Some(2));
    assert_eq!(extrair_id_estacao_de_info("E0: x"), None);
    assert_eq!(extrair_id_estacao_de_info("E: x"), None);
    assert_eq!(extrair_id_estacao_de_info("E3 x"), None);
    assert_eq!(extrair_id_estacao_de_info("3: x"), None);
    assert_eq!(extrair_id_estacao_de_info(": E3"), None);
    assert_eq!(extrair_id_estacao_de_info("E3a: x"), None);
    assert_eq!(extrair_id_estacao_de_info("EE3: x"), None);
    assert_eq!(extrair_id_estacao_de_info("E3: E4: x"), Some(2));
    assert_eq!(extrair_id_estacao_de_info(""), None);
}

#[test]
fn caracteres_de_um_texto() {
    assert_eq!(caracteres(""), Vec::<char>::new());
    assert_eq!(caracteres("já 1"), vec!['j', 'á', ' ', '1']);
}

#[test]
fn decimais_lidos_em_milesimos() {
    assert_eq!(analisar_decimal("10,3"), Some(10_300));
    assert_eq!(analisar_decimal("10.3"), Some(10_300));
    assert_eq!(analisar_decimal(" 24,8 "), Some(24_800));
    assert_eq!(analisar_decimal("\t7\r\n"), Some(7_000));
    assert_eq!(analisar_decimal("0"), Some(0));
    assert_eq!(analisar_decimal("0,0"), Some(0));
    assert_eq!(analisar_decimal("+1,25"), Some(1_250));
    assert_eq!(analisar_decimal("1,234"), Some(1_234));
    assert_eq!(analisar_decimal("1,2349"), Some(1_234));
    assert_eq!(analisar_decimal("1,2"), Some(1_200));
    assert_eq!(analisar_decimal("1,02"), Some(1_020));
    assert_eq!(analisar_decimal("1,002"), Some(1_002));
    assert_eq!(analisar_decimal("5."), Some(5_000));
    assert_eq!(analisar_decimal(",5"), Some(500));
    assert_eq!(analisar_decimal("007,5"), Some(7_500));
    assert_eq!(analisar_decimal("\u{a0}3\u{2003}"), Some(3_000));
    assert_eq!(analisar_decimal(""), None);
    assert_eq!(analisar_decimal("   "), None);
    assert_eq!(analisar_decimal(","), None);
    assert_eq!(analisar_decimal("+"), None);
    assert_eq!(analisar_decimal("-1"), None);
    assert_eq!(analisar_decimal("-"), None);
    assert_eq!(analisar_decimal("1,2,3"), None);
    assert_eq!(analisar_decimal("1 2"), None);
    assert_eq!(analisar_decimal("1e3"), None);
    assert_eq!(analisar_decimal("abc"), None);
    assert_eq!(analisar_decimal("1,2x"), None);
    assert_eq!(analisar_decimal("1,2345x"), None);
    assert_eq!(analisar_decimal("++1"), None);
    assert_eq!(analisar_decimal("18446744073709551"), Some(18_446_744_073_709_551_000));
    assert_eq!(analisar_decimal("18446744073709551,615"), Some(u64::MAX));
    assert_eq!(analisar_decimal("18446744073709551,616"), Some(u64::MAX));
    assert_eq!(analisar_decimal("18446744073709552"), Some(u64::MAX));
    assert_eq!(analisar_decimal("99999999999999999999999999"), Some(u64::MAX));
}

#[test]
fn codigos_de_linha_lidos() {
    assert_eq!(analisar_codigo("1"), Some(1));
    assert_eq!(analisar_codigo(" 4 "), Some(4));
    assert_eq!(analisar_codigo("+2"), Some(2));
    assert_eq!(analisar_codigo("0"), Some(0));
    assert_eq!(analisar_codigo("300"), Some(300));
    assert_eq!(analisar_codigo(""), None);
    assert_eq!(analisar_codigo("-1"), None);
    assert_eq!(analisar_codigo("1,0"), None);
    assert_eq!(analisar_codigo("x"), None);
    assert_eq!(analisar_codigo("99999999999999999999999999"), None);
}

#[test]
fn minutos_escritos_com_uma_casa() {
    assert_eq!(formatar_minutos(0), "0.0");
    assert_eq!(formatar_minutos(49), "0.0");
    assert_eq!(formatar_minutos(50), "0.1");
    assert_eq!(formatar_minutos(20_600), "20.6");
    assert_eq!(formatar_minutos(20_649), "20.6");
    assert_eq!(formatar_minutos(20_650), "20.7");
    assert_eq!(formatar_minutos(9_950), "10.0");
    assert_eq!(formatar_minutos(15_000), "15.0");
    assert_eq!(formatar_minutos(u64::MAX), "18446744073709551.6");
}

#[test]
fn descricao_de_um_no() {
    let no = EstadoNoFronteira {
        id_estacao: 2,
        linha_chegada: Some(CorLinha::Azul),
        custo_f: 20_600,
        custo_g_viagem: 10_000,
        caminho: vec![0, 1, 2],
    };
    assert_eq!(no.debug_print(), "E3 (f=20.6, g=10.0, h=10.6)");
    assert_eq!(no.debug_full(), "Estado: E3 (f=20.6, g=10.0, h=10.6), Caminho: E1 -> E2 -> E3");
    let sozinho = EstadoNoFronteira {
        id_estacao: 13,
        linha_chegada: None,
        custo_f: 0,
        custo_g_viagem: 0,
        caminho: vec![13],
    };
    assert_eq!(sozinho.debug_full(), "Estado: E14 (f=0.0, g=0.0, h=0.0), Caminho: E14");
    let sem_caminho = EstadoNoFronteira {
        id_estacao: 0,
        linha_chegada: None,
        custo_f: 1_000,
        custo_g_viagem: 2_000,
        caminho: vec![],
    };
    assert_eq!(sem_caminho.debug_full(), "Estado: E1 (f=1.0, g=2.0, h=0.0), Caminho: ");
}

#[test]
fn trajeto_avaliado_pelas_conexoes_diretas() {
    let conexao = |para: usize, linha: CorLinha, tempo: u64| Conexao {
        para_estacao: para,
        cor_linha: linha,
        distancia_km: tempo / 2,
        tempo_minutos: tempo,
    };
    let mut grafo = GrafoMetro::com_estacoes(5);
    grafo.lista_adjacencia[0].push(conexao(1, CorLinha::Azul, 5_000));
    grafo.lista_adjacencia[1].push(conexao(2, CorLinha::Verde, 6_000));
    grafo.lista_adjacencia[1].push(conexao(2, CorLinha::Azul, 1_000));
    grafo.lista_adjacencia[2].push(conexao(4, CorLinha::Verde, 7_500));
    assert_eq!(grafo.buscar_conexao(1, 2), Some(conexao(2, CorLinha::Verde, 6_000)));
    assert_eq!(grafo.buscar_conexao(2, 1), None);
    assert_eq!(grafo.buscar_conexao(9, 1), None);
    assert_eq!(
        grafo.avaliar_trajeto(&vec![0, 1, 2, 4]),
        ResumoTrajeto {
            tempo_total_minutos: 5_000 + 4_000 + 6_000 + 7_500,
            baldeacoes: 1,
            trechos_sem_conexao: 0,
            ultima_linha: Some(CorLinha::Verde),
        }
    );
    // Between stations 2 and 3, and 3 and 4, there is no connection; the
    // line of the last connection found is kept across the gap.
    assert_eq!(
        grafo.avaliar_trajeto(&vec![0, 1, 3, 2, 4, 7]),
        ResumoTrajeto {
            tempo_total_minutos: 5_000 + 4_000 + 7_500,
            baldeacoes: 1,
            trechos_sem_conexao: 3,
            ultima_linha: Some(CorLinha::Verde),
        }
    );
    let vazio = ResumoTrajeto { tempo_total_minutos: 0, baldeacoes: 0, trechos_sem_conexao: 0, ultima_linha: None };
    assert_eq!(grafo.avaliar_trajeto(&vec![]), vazio);
    assert_eq!(grafo.avaliar_trajeto(&vec![3]), vazio);
    assert_eq!(nome_da_estacao(0), "E1");
    assert_eq!(nome_da_estacao(99), "E100");
}
