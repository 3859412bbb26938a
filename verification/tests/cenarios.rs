use metro_paris_astar::algoritmo_a_estrela::{
    contar_baldeacoes, EstadoAlgoritmo, EstadoNoFronteira, EventoVisual, InfoCaminho,
    ResultadoPassoAEstrela, SolucionadorAEstrela, StatusEstacao, MAX_HISTORICO,
};
use metro_paris_astar::grafo_metro::{
    Conexao, CorLinha, GrafoMetro, Minutos, MILESIMOS, TEMPO_BALDEACAO_MINUTOS,
};
use std::sync::Arc;

fn minutos(m: u64) -> Minutos {
    m * MILESIMOS
}

fn ligar(grafo: &mut GrafoMetro, de: usize, para: usize, linha: CorLinha, tempo: Minutos) {
    grafo.lista_adjacencia[de].push(Conexao {
        para_estacao: para,
        cor_linha: linha,
        distancia_km: tempo / 2,
        tempo_minutos: tempo,
    });
}

fn cadeia_de_quatro(linha_do_meio: CorLinha) -> GrafoMetro {
    let mut grafo = GrafoMetro::com_estacoes(4);
    ligar(&mut grafo, 0, 1, CorLinha::Azul, minutos(5));
    ligar(&mut grafo, 1, 2, linha_do_meio, minutos(5));
    ligar(&mut grafo, 2, 3, CorLinha::Azul, minutos(5));
    grafo
}

/// A small network with two lines, a cycle and a heuristic that is
/// consistent toward station 5.
fn rede_de_seis() -> GrafoMetro {
    let mut grafo = GrafoMetro::com_estacoes(6);
    let trechos = [
        (0, 1, CorLinha::Azul, 4),
        (1, 0, CorLinha::Azul, 4),
        (1, 2, CorLinha::Azul, 6),
        (2, 1, CorLinha::Azul, 6),
        (0, 3, CorLinha::Vermelha, 3),
        (3, 0, CorLinha::Vermelha, 3),
        (3, 4, CorLinha::Vermelha, 3),
        (4, 3, CorLinha::Vermelha, 3),
        (4, 2, CorLinha::Amarela, 2),
        (2, 4, CorLinha::Amarela, 2),
        (2, 5, CorLinha::Azul, 7),
        (5, 2, CorLinha::Azul, 7),
        (4, 5, CorLinha::Vermelha, 12),
        (5, 4, CorLinha::Vermelha, 12),
    ];
    for (de, para, linha, tempo) in trechos {
        ligar(&mut grafo, de, para, linha, minutos(tempo));
    }
    // Straight-line distances to station 5, in thousandths of a kilometre;
    // the heuristic time is twice the distance.
    let ate_o_objetivo = [6_000, 5_000, 3_000, 5_500, 4_000, 0];
    for (estacao, distancia) in ate_o_objetivo.iter().enumerate() {
        grafo.distancias_heuristicas_km[estacao][5] = Some(*distancia);
    }
    grafo
}

/// Stations in a row, each joined to the next in both directions, the
/// lines changing every third connection.
fn linha_longa(n: usize) -> GrafoMetro {
    let linhas = [CorLinha::Azul, CorLinha::Amarela, CorLinha::Vermelha, CorLinha::Verde];
    let mut grafo = GrafoMetro::com_estacoes(n);
    for i in 0..n - 1 {
        let linha = linhas[(i / 3) % 4];
        ligar(&mut grafo, i, i + 1, linha, minutos(2) + 500);
        ligar(&mut grafo, i + 1, i, linha, minutos(2) + 500);
    }
    grafo
}

fn executar_ate_o_fim(solucionador: &mut SolucionadorAEstrela, limite: usize) -> Vec<EventoVisual> {
    let mut eventos = Vec::new();
    for _ in 0..limite {
        let evento = solucionador.proximo_evento();
        let fim = matches!(
            evento,
            EventoVisual::CaminhoEncontrado { .. } | EventoVisual::NenhumCaminho
        );
        eventos.push(evento);
        if fim {
            return eventos;
        }
    }
    panic!("the search did not end within {} steps", limite);
}

fn passos(solucionador: &mut SolucionadorAEstrela, n: usize) -> Vec<EventoVisual> {
    let mut eventos = Vec::new();
    for _ in 0..n {
        eventos.push(solucionador.proximo_evento());
    }
    eventos
}

fn caminho_encontrado(eventos: &[EventoVisual]) -> InfoCaminho {
    match eventos.last() {
        Some(EventoVisual::CaminhoEncontrado { info_caminho }) => info_caminho.clone(),
        outro => panic!("expected a path, got {:?}", outro),
    }
}

/// The least time of any route between two stations, by exhaustive
/// relaxation over (station, arrival line) states.
fn tempo_minimo(grafo: &GrafoMetro, inicio: usize, linha: Option<CorLinha>, objetivo: usize) -> Option<u64> {
    let mut melhor: Vec<((usize, Option<CorLinha>), u64)> = vec![((inicio, linha), 0)];
    let mut mudou = true;
    while mudou {
        mudou = false;
        for indice in 0..melhor.len() {
            let ((estacao, chegada), custo) = melhor[indice];
            for conexao in &grafo.lista_adjacencia[estacao] {
                let baldeacao = match chegada {
                    Some(l) if l != conexao.cor_linha => TEMPO_BALDEACAO_MINUTOS,
                    _ => 0,
                };
                let novo = custo + conexao.tempo_minutos + baldeacao;
                let chave = (conexao.para_estacao, Some(conexao.cor_linha));
                match melhor.iter().position(|(c, _)| *c == chave) {
                    Some(p) => {
                        if novo < melhor[p].1 {
                            melhor[p].1 = novo;
                            mudou = true;
                        }
                    }
                    None => {
                        melhor.push((chave, novo));
                        mudou = true;
                    }
                }
            }
        }
    }
    melhor.iter().filter(|((estacao, _), _)| *estacao == objetivo).map(|(_, custo)| *custo).min()
}

#[test]
fn cenario_caminho_em_uma_linha() {
    let grafo = cadeia_de_quatro(CorLinha::Azul);
    assert!(grafo.validar());
    let mut solucionador = SolucionadorAEstrela::novo(Arc::new(grafo), 0, None, 3);
    let eventos = executar_ate_o_fim(&mut solucionador, 1000);
    let info = caminho_encontrado(&eventos);
    assert_eq!(info.tempo_total_minutos, minutos(15));
    assert_eq!(info.baldeacoes, 0);
    assert!(info.cadeia_completa);
    assert_eq!(
        info.estacoes_do_caminho,
        vec![
            (0, None),
            (1, Some(CorLinha::Azul)),
            (2, Some(CorLinha::Azul)),
            (3, Some(CorLinha::Azul)),
        ]
    );
    assert!(solucionador.esta_finalizado());
    assert!(!solucionador.pode_continuar());
    assert_eq!(solucionador.estado_atual(), EstadoAlgoritmo::CaminhoEncontrado);
}

#[test]
fn cenario_uma_baldeacao() {
    // The line changes once, onto the middle connection: fifteen minutes of
    // travel and four of transfer.
    let mut grafo = GrafoMetro::com_estacoes(4);
    ligar(&mut grafo, 0, 1, CorLinha::Azul, minutos(5));
    ligar(&mut grafo, 1, 2, CorLinha::Vermelha, minutos(5));
    ligar(&mut grafo, 2, 3, CorLinha::Vermelha, minutos(5));
    let mut solucionador = SolucionadorAEstrela::novo(Arc::new(grafo), 0, None, 3);
    let eventos = executar_ate_o_fim(&mut solucionador, 1000);
    let info = caminho_encontrado(&eventos);
    assert_eq!(info.tempo_total_minutos, minutos(19));
    assert_eq!(info.baldeacoes, 1);
    assert_eq!(
        info.estacoes_do_caminho,
        vec![
            (0, None),
            (1, Some(CorLinha::Azul)),
            (2, Some(CorLinha::Vermelha)),
            (3, Some(CorLinha::Vermelha)),
        ]
    );
}

#[test]
fn cenario_linha_do_meio_diferente() {
    // Only the middle connection is on another line, so the traveller
    // changes onto it and back: two transfers.
    let grafo = cadeia_de_quatro(CorLinha::Vermelha);
    let mut solucionador = SolucionadorAEstrela::novo(Arc::new(grafo), 0, None, 3);
    let eventos = executar_ate_o_fim(&mut solucionador, 1000);
    let info = caminho_encontrado(&eventos);
    assert_eq!(
        info.estacoes_do_caminho,
        vec![
            (0, None),
            (1, Some(CorLinha::Azul)),
            (2, Some(CorLinha::Vermelha)),
            (3, Some(CorLinha::Azul)),
        ]
    );
    assert_eq!(info.baldeacoes, 2);
    assert_eq!(info.tempo_total_minutos, minutos(15) + 2 * TEMPO_BALDEACAO_MINUTOS);
}

#[test]
fn cenario_sem_caminho() {
    let mut grafo = GrafoMetro::com_estacoes(4);
    ligar(&mut grafo, 0, 1, CorLinha::Azul, minutos(5));
    ligar(&mut grafo, 1, 2, CorLinha::Azul, minutos(5));
    let mut solucionador = SolucionadorAEstrela::novo(Arc::new(grafo), 0, None, 3);
    // Three states can be reached: one round for each of them, then the
    // frontier is empty.
    for _ in 0..3 {
        assert_eq!(solucionador.proximo_passo(), ResultadoPassoAEstrela::EmProgresso);
        assert!(!solucionador.esta_finalizado());
    }
    assert_eq!(solucionador.proximo_passo(), ResultadoPassoAEstrela::NenhumCaminhoPossivel);
    assert!(solucionador.esta_finalizado());
    assert_eq!(solucionador.estado_atual(), EstadoAlgoritmo::SemCaminho);
    assert_eq!(solucionador.proximo_evento(), EventoVisual::NenhumCaminho);
    assert_eq!(solucionador.proximo_passo(), ResultadoPassoAEstrela::NenhumCaminhoPossivel);
}

#[test]
fn cenario_desempate_por_id() {
    let mut grafo = GrafoMetro::com_estacoes(4);
    ligar(&mut grafo, 0, 2, CorLinha::Azul, minutos(5));
    ligar(&mut grafo, 0, 1, CorLinha::Azul, minutos(5));
    let mut solucionador = SolucionadorAEstrela::novo(Arc::new(grafo), 0, None, 3);
    assert_eq!(solucionador.proximo_passo(), ResultadoPassoAEstrela::EmProgresso);
    // Station 2 entered the frontier first; both nodes have the same f and g.
    let fronteira = solucionador.fronteira();
    assert_eq!(fronteira.len(), 2);
    assert_eq!(fronteira[0].id_estacao, 2);
    assert_eq!(fronteira[1].id_estacao, 1);
    assert_eq!(fronteira[0].custo_f, fronteira[1].custo_f);
    assert_eq!(fronteira[0].custo_g_viagem, fronteira[1].custo_g_viagem);
    match solucionador.proximo_evento() {
        EventoVisual::NoEscolhidoDaFronteira { id_estacao, custo_f, custo_g, custo_h, caminho_ate_aqui } => {
            assert_eq!(id_estacao, 1);
            assert_eq!(custo_f, minutos(5));
            assert_eq!(custo_g, minutos(5));
            assert_eq!(custo_h, 0);
            assert_eq!(caminho_ate_aqui, vec![0, 1]);
        }
        outro => panic!("expected a node to be taken out, got {:?}", outro),
    }
}

#[test]
fn prioridade_por_f_depois_g_depois_id() {
    let no = |id: usize, f: u64, g: u64| EstadoNoFronteira {
        id_estacao: id,
        linha_chegada: None,
        custo_f: f,
        custo_g_viagem: g,
        caminho: vec![id],
    };
    assert!(no(9, 10, 10).tem_prioridade_sobre(&no(1, 11, 0)));
    assert!(!no(1, 11, 0).tem_prioridade_sobre(&no(9, 10, 10)));
    assert!(no(9, 10, 3).tem_prioridade_sobre(&no(1, 10, 4)));
    assert!(no(1, 10, 4).tem_prioridade_sobre(&no(2, 10, 4)));
    assert!(!no(2, 10, 4).tem_prioridade_sobre(&no(1, 10, 4)));
    assert!(!no(1, 10, 4).tem_prioridade_sobre(&no(1, 10, 4)));
}

#[test]
fn eventos_de_uma_busca_curta() {
    let mut grafo = GrafoMetro::com_estacoes(2);
    ligar(&mut grafo, 0, 1, CorLinha::Verde, minutos(3));
    grafo.distancias_heuristicas_km[0][1] = Some(1_000);
    let mut solucionador = SolucionadorAEstrela::novo(Arc::new(grafo), 0, Some(CorLinha::Azul), 1);
    let eventos = executar_ate_o_fim(&mut solucionador, 100);
    let esperado = vec![
        EventoVisual::AlgoritmoInicializado { id_inicio: 0, id_objetivo: 1, custo_h_inicial: minutos(2) },
        EventoVisual::NoEscolhidoDaFronteira {
            id_estacao: 0,
            custo_f: minutos(2),
            custo_g: 0,
            custo_h: minutos(2),
            caminho_ate_aqui: vec![0],
        },
        EventoVisual::VerificandoSeEhObjetivo { id_estacao: 0, eh_objetivo: false },
        EventoVisual::InicioDaExpansaoDeNo { id_estacao: 0, numero_vizinhos: 1 },
        EventoVisual::AvaliandoVizinho {
            id_estacao_atual: 0,
            id_vizinho: 1,
            linha_conexao: CorLinha::Verde,
            tempo_conexao: minutos(3),
            custo_baldeacao: minutos(4),
            custo_g_novo: minutos(7),
            custo_h: 0,
            custo_f_novo: minutos(7),
        },
        EventoVisual::FimDaExpansaoDeNo { id_estacao: 0, vizinhos_adicionados: 1, tamanho_fronteira: 1 },
        EventoVisual::NoEscolhidoDaFronteira {
            id_estacao: 1,
            custo_f: minutos(7),
            custo_g: minutos(7),
            custo_h: 0,
            caminho_ate_aqui: vec![0, 1],
        },
        EventoVisual::VerificandoSeEhObjetivo { id_estacao: 1, eh_objetivo: true },
        EventoVisual::CaminhoEncontrado {
            info_caminho: InfoCaminho {
                estacoes_do_caminho: vec![(0, Some(CorLinha::Azul)), (1, Some(CorLinha::Verde))],
                tempo_total_minutos: minutos(7),
                baldeacoes: 1,
                cadeia_completa: true,
            },
        },
    ];
    assert_eq!(eventos, esperado);
    // A search that has ended reports its end again and changes nothing.
    let historico = solucionador.numero_passos_historico();
    assert_eq!(solucionador.proximo_evento(), esperado[8]);
    assert_eq!(solucionador.numero_passos_historico(), historico);
}

#[test]
fn partida_no_objetivo() {
    let grafo = cadeia_de_quatro(CorLinha::Azul);
    let mut solucionador = SolucionadorAEstrela::novo(Arc::new(grafo), 2, None, 2);
    let eventos = executar_ate_o_fim(&mut solucionador, 100);
    assert_eq!(eventos.len(), 4);
    let info = caminho_encontrado(&eventos);
    assert_eq!(info.tempo_total_minutos, 0);
    assert_eq!(info.baldeacoes, 0);
    assert_eq!(info.estacoes_do_caminho, vec![(2, None)]);
    assert!(info.cadeia_completa);
}

#[test]
fn vizinho_explorado_e_caminho_melhor_sao_preteridos() {
    let mut grafo = GrafoMetro::com_estacoes(4);
    ligar(&mut grafo, 0, 1, CorLinha::Azul, minutos(1));
    ligar(&mut grafo, 0, 2, CorLinha::Azul, minutos(5));
    ligar(&mut grafo, 1, 0, CorLinha::Azul, minutos(1));
    ligar(&mut grafo, 1, 2, CorLinha::Azul, minutos(1));
    ligar(&mut grafo, 2, 1, CorLinha::Azul, minutos(1));
    ligar(&mut grafo, 2, 3, CorLinha::Azul, minutos(1));
    let mut solucionador = SolucionadorAEstrela::novo(Arc::new(grafo), 0, None, 3);
    let eventos = executar_ate_o_fim(&mut solucionador, 1000);
    // Station 1 is explored when station 2 is expanded.
    assert!(eventos.contains(&EventoVisual::VizinhoJaExplorado { id_vizinho: 1 }));
    // The state of station 2 enters the frontier twice: with cost 5, then 2.
    // Station 0 is reached again, by line Azul at cost 2, and its connection
    // to station 2 is evaluated once more, without improving on cost 2.
    let entradas: Vec<u64> = eventos
        .iter()
        .filter_map(|evento| match evento {
            EventoVisual::AvaliandoVizinho { id_vizinho: 2, custo_g_novo, .. } => Some(*custo_g_novo),
            _ => None,
        })
        .collect();
    assert_eq!(entradas, vec![minutos(5), minutos(2), minutos(7)]);
    // The stale node of cost 5 is passed over when it leaves the frontier.
    assert!(!eventos.contains(&EventoVisual::NoJaExplorado { id_estacao: 2 }));
    let info = caminho_encontrado(&eventos);
    assert_eq!(info.tempo_total_minutos, minutos(3));
    assert_eq!(
        info.estacoes_do_caminho,
        vec![
            (0, None),
            (1, Some(CorLinha::Azul)),
            (2, Some(CorLinha::Azul)),
            (3, Some(CorLinha::Azul)),
        ]
    );
}

#[test]
fn no_superado_e_descartado_ao_sair_da_fronteira() {
    let mut grafo = GrafoMetro::com_estacoes(4);
    ligar(&mut grafo, 0, 1, CorLinha::Azul, minutos(1));
    ligar(&mut grafo, 0, 2, CorLinha::Azul, minutos(5));
    ligar(&mut grafo, 1, 2, CorLinha::Azul, minutos(1));
    ligar(&mut grafo, 2, 3, CorLinha::Azul, minutos(10));
    ligar(&mut grafo, 0, 3, CorLinha::Verde, minutos(30));
    let mut solucionador = SolucionadorAEstrela::novo(Arc::new(grafo), 0, None, 3);
    let eventos = executar_ate_o_fim(&mut solucionador, 1000);
    assert!(eventos.contains(&EventoVisual::NoJaExplorado { id_estacao: 2 }));
    assert_eq!(caminho_encontrado(&eventos).tempo_total_minutos, minutos(12));
}

#[test]
fn melhor_custo_igual_nao_entra_na_fronteira() {
    let mut grafo = GrafoMetro::com_estacoes(4);
    ligar(&mut grafo, 0, 1, CorLinha::Azul, minutos(2));
    ligar(&mut grafo, 0, 2, CorLinha::Azul, minutos(2));
    ligar(&mut grafo, 1, 3, CorLinha::Azul, minutos(2));
    ligar(&mut grafo, 2, 3, CorLinha::Azul, minutos(2));
    let mut solucionador = SolucionadorAEstrela::novo(Arc::new(grafo), 0, None, 3);
    let eventos = executar_ate_o_fim(&mut solucionador, 1000);
    let fins: Vec<(usize, usize)> = eventos
        .iter()
        .filter_map(|evento| match evento {
            EventoVisual::FimDaExpansaoDeNo { id_estacao, vizinhos_adicionados, .. } => {
                Some((*id_estacao, *vizinhos_adicionados))
            }
            _ => None,
        })
        .collect();
    // Station 1 puts station 3 into the frontier; station 2 reaches it at
    // the same cost and adds nothing.
    assert_eq!(fins, vec![(0, 2), (1, 1), (2, 0)]);
    let info = caminho_encontrado(&eventos);
    assert_eq!(info.estacoes_do_caminho[1], (1, Some(CorLinha::Azul)));
}

#[test]
fn tempo_total_e_o_minimo_com_heuristica_consistente() {
    let grafo = Arc::new(rede_de_seis());
    assert!(grafo.validar());
    for inicio in 0..6 {
        for linha in [None, Some(CorLinha::Azul), Some(CorLinha::Vermelha)] {
            let mut solucionador = SolucionadorAEstrela::novo(Arc::clone(&grafo), inicio, linha, 5);
            let eventos = executar_ate_o_fim(&mut solucionador, 10_000);
            let info = caminho_encontrado(&eventos);
            assert_eq!(Some(info.tempo_total_minutos), tempo_minimo(&grafo, inicio, linha, 5));
            assert!(info.cadeia_completa);
            assert_eq!(info.estacoes_do_caminho[0], (inicio, linha));
            assert_eq!(info.estacoes_do_caminho.last().unwrap().0, 5);
        }
    }
}

#[test]
fn tempo_total_e_o_minimo_com_heuristica_nula() {
    let mut grafo = rede_de_seis();
    for estacao in 0..6 {
        grafo.distancias_heuristicas_km[estacao][5] = None;
    }
    let grafo = Arc::new(grafo);
    let mut solucionador = SolucionadorAEstrela::novo(Arc::clone(&grafo), 0, None, 5);
    let eventos = executar_ate_o_fim(&mut solucionador, 10_000);
    let info = caminho_encontrado(&eventos);
    // 0 -> 3 -> 4 on Vermelha (6), change to Amarela (4 + 2), change to Azul (4 + 7).
    // 0 -> 1 -> 2 -> 5 on Azul alone takes 17.
    assert_eq!(info.tempo_total_minutos, minutos(17));
    assert_eq!(info.baldeacoes, 0);
    assert_eq!(Some(info.tempo_total_minutos), tempo_minimo(&grafo, 0, None, 5));
}

#[test]
fn heuristica_inconsistente_pode_custar_mais() {
    // The estimate at station 2 is below the true remaining time of eleven
    // minutes, so it is admissible, but it drops by more than the minute
    // that the connection from 2 to 1 takes.
    let mut grafo = GrafoMetro::com_estacoes(4);
    ligar(&mut grafo, 0, 1, CorLinha::Azul, minutos(4));
    ligar(&mut grafo, 0, 2, CorLinha::Azul, minutos(1));
    ligar(&mut grafo, 2, 1, CorLinha::Azul, minutos(1));
    ligar(&mut grafo, 1, 3, CorLinha::Azul, minutos(10));
    grafo.distancias_heuristicas_km[2][3] = Some(2_500);
    let grafo = Arc::new(grafo);
    let mut solucionador = SolucionadorAEstrela::novo(Arc::clone(&grafo), 0, None, 3);
    let eventos = executar_ate_o_fim(&mut solucionador, 1000);
    let info = caminho_encontrado(&eventos);
    assert_eq!(tempo_minimo(&grafo, 0, None, 3), Some(minutos(12)));
    assert_eq!(info.tempo_total_minutos, minutos(14));
}

#[test]
fn execucoes_repetidas_dao_os_mesmos_eventos() {
    let grafo = Arc::new(rede_de_seis());
    let mut primeiro = SolucionadorAEstrela::novo(Arc::clone(&grafo), 0, Some(CorLinha::Verde), 5);
    let mut segundo = SolucionadorAEstrela::novo(Arc::clone(&grafo), 0, Some(CorLinha::Verde), 5);
    let eventos_do_primeiro = executar_ate_o_fim(&mut primeiro, 10_000);
    // The second solver is stepped back and forth on the way: the events of
    // its search do not depend on its history.
    let mut eventos_do_segundo = passos(&mut segundo, 7);
    for _ in 0..3 {
        assert!(segundo.passo_anterior());
    }
    eventos_do_segundo.truncate(4);
    eventos_do_segundo.extend(executar_ate_o_fim(&mut segundo, 10_000));
    assert_eq!(eventos_do_primeiro, eventos_do_segundo);
}

#[test]
fn ida_e_volta_repete_os_eventos() {
    let grafo = Arc::new(linha_longa(30));
    for n in [0usize, 1, 2, 5, 17, 50] {
        let mut solucionador = SolucionadorAEstrela::novo(Arc::clone(&grafo), 0, None, 29);
        let ida = passos(&mut solucionador, n);
        assert!(!solucionador.esta_finalizado());
        for _ in 0..n {
            assert!(solucionador.passo_anterior());
        }
        assert_eq!(solucionador.numero_passos_historico(), 0);
        assert_eq!(solucionador.estado_atual(), EstadoAlgoritmo::Inicializado);
        let volta = passos(&mut solucionador, n);
        assert_eq!(ida, volta);
    }
}

#[test]
fn ida_e_volta_no_meio_da_busca() {
    let grafo = Arc::new(linha_longa(30));
    let mut solucionador = SolucionadorAEstrela::novo(Arc::clone(&grafo), 0, None, 29);
    passos(&mut solucionador, 33);
    let ida = passos(&mut solucionador, 20);
    for _ in 0..20 {
        assert!(solucionador.passo_anterior());
    }
    // Fifty-three steps were taken: the three oldest snapshots have left.
    assert_eq!(solucionador.numero_passos_historico(), 30);
    assert_eq!(passos(&mut solucionador, 20), ida);
}

#[test]
fn ida_e_volta_alem_do_fim_da_busca() {
    let grafo = Arc::new(cadeia_de_quatro(CorLinha::Azul));
    let mut solucionador = SolucionadorAEstrela::novo(Arc::clone(&grafo), 0, None, 3);
    let ida = passos(&mut solucionador, 40);
    let efetivos = solucionador.numero_passos_historico();
    assert!(efetivos < 40);
    let mut voltas = 0;
    for _ in 0..40 {
        if solucionador.passo_anterior() {
            voltas += 1;
        }
    }
    assert_eq!(voltas, efetivos);
    assert_eq!(passos(&mut solucionador, 40), ida);
}

#[test]
fn historico_guarda_cinquenta_estados() {
    assert_eq!(MAX_HISTORICO, 50);
    let grafo = Arc::new(linha_longa(30));
    let mut solucionador = SolucionadorAEstrela::novo(Arc::clone(&grafo), 0, None, 29);
    assert!(!solucionador.pode_voltar_passo());
    assert!(!solucionador.passo_anterior());
    let eventos = passos(&mut solucionador, 58);
    assert!(!solucionador.esta_finalizado());
    assert_eq!(solucionador.numero_passos_historico(), 50);
    let mut voltas = 0;
    while solucionador.passo_anterior() {
        voltas += 1;
    }
    assert_eq!(voltas, 50);
    assert!(!solucionador.pode_voltar_passo());
    // The solver is back where its ninth step started from.
    assert_eq!(passos(&mut solucionador, 50), eventos[8..].to_vec());
}

#[test]
fn reiniciar_volta_ao_estado_inicial() {
    let grafo = Arc::new(rede_de_seis());
    let mut solucionador = SolucionadorAEstrela::novo(Arc::clone(&grafo), 1, None, 5);
    let primeira = executar_ate_o_fim(&mut solucionador, 10_000);
    assert!(solucionador.esta_finalizado());
    solucionador.reiniciar();
    assert_eq!(solucionador.estado_atual(), EstadoAlgoritmo::Inicializado);
    assert_eq!(solucionador.numero_passos_historico(), 0);
    assert_eq!(solucionador.fronteira().len(), 1);
    assert_eq!(solucionador.estacao_sendo_explorada_no_momento(), None);
    for estacao in 0..6 {
        assert_eq!(solucionador.obter_status_estacao(estacao), StatusEstacao::Disponivel);
        assert!(!solucionador.foi_explorado(estacao, None));
    }
    assert_eq!(executar_ate_o_fim(&mut solucionador, 10_000), primeira);
}

#[test]
fn explorados_e_melhores_custos_nao_regridem() {
    let grafo = Arc::new(rede_de_seis());
    let linhas = [
        None,
        Some(CorLinha::Azul),
        Some(CorLinha::Amarela),
        Some(CorLinha::Vermelha),
        Some(CorLinha::Verde),
        Some(CorLinha::Nenhuma),
    ];
    let mut solucionador = SolucionadorAEstrela::novo(Arc::clone(&grafo), 0, None, 5);
    let mut explorados: Vec<(usize, Option<CorLinha>)> = Vec::new();
    let mut expandidos: Vec<(usize, Option<CorLinha>)> = Vec::new();
    let mut melhores: Vec<((usize, Option<CorLinha>), u64)> = Vec::new();
    loop {
        let evento = solucionador.proximo_evento();
        for estacao in 0..6 {
            for linha in linhas {
                let agora = solucionador.foi_explorado(estacao, linha);
                let antes = explorados.contains(&(estacao, linha));
                assert!(agora || !antes);
                if agora && !antes {
                    assert!(matches!(evento, EventoVisual::InicioDaExpansaoDeNo { .. }));
                    assert!(!expandidos.contains(&(estacao, linha)));
                    expandidos.push((estacao, linha));
                    explorados.push((estacao, linha));
                }
            }
        }
        if let EventoVisual::AvaliandoVizinho { id_vizinho, linha_conexao, custo_g_novo, .. } = evento {
            let chave = (id_vizinho, Some(linha_conexao));
            let entrou = solucionador
                .fronteira()
                .last()
                .map(|no| (no.id_estacao, no.linha_chegada) == chave && no.custo_g_viagem == custo_g_novo)
                .unwrap_or(false);
            match melhores.iter().position(|(c, _)| *c == chave) {
                Some(p) => {
                    if custo_g_novo < melhores[p].1 {
                        assert!(entrou);
                        melhores[p].1 = custo_g_novo;
                    }
                }
                None => {
                    assert!(entrou);
                    melhores.push((chave, custo_g_novo));
                }
            }
        }
        if matches!(evento, EventoVisual::CaminhoEncontrado { .. } | EventoVisual::NenhumCaminho) {
            break;
        }
    }
    assert!(!expandidos.is_empty());
}

#[test]
fn status_das_estacoes_durante_a_expansao() {
    let grafo = Arc::new(cadeia_de_quatro(CorLinha::Azul));
    let mut solucionador = SolucionadorAEstrela::novo(Arc::clone(&grafo), 0, None, 3);
    assert_eq!(solucionador.obter_status_estacao(0), StatusEstacao::Disponivel);
    assert_eq!(solucionador.obter_status_estacao(99), StatusEstacao::Disponivel);
    passos(&mut solucionador, 4);
    assert_eq!(solucionador.estado_atual(), EstadoAlgoritmo::AvaliandoVizinho { indice_vizinho: 0 });
    assert_eq!(solucionador.obter_status_estacao(0), StatusEstacao::SelecionadaParaExpansao);
    assert_eq!(solucionador.estacao_sendo_explorada_no_momento(), Some(0));
    assert!(solucionador.foi_explorado(0, None));
    assert!(!solucionador.foi_explorado(0, Some(CorLinha::Azul)));
    assert!(!solucionador.foi_explorado(99, None));
    passos(&mut solucionador, 1);
    assert_eq!(solucionador.estado_atual(), EstadoAlgoritmo::FinalizandoExpansao);
    assert_eq!(solucionador.obter_status_estacao(0), StatusEstacao::ExpandindoVizinhos);
    passos(&mut solucionador, 1);
    assert_eq!(solucionador.estado_atual(), EstadoAlgoritmo::SelecionandoNoDaFronteira);
    assert_eq!(solucionador.obter_status_estacao(0), StatusEstacao::Explorada);
    assert!(solucionador.passo_anterior());
    assert_eq!(solucionador.obter_status_estacao(0), StatusEstacao::ExpandindoVizinhos);
}

#[test]
fn rodada_encontra_o_caminho() {
    let grafo = Arc::new(cadeia_de_quatro(CorLinha::Azul));
    let mut solucionador = SolucionadorAEstrela::novo(Arc::clone(&grafo), 0, None, 3);
    for _ in 0..3 {
        assert_eq!(solucionador.proximo_passo(), ResultadoPassoAEstrela::EmProgresso);
    }
    match solucionador.proximo_passo() {
        ResultadoPassoAEstrela::CaminhoEncontrado(info) => {
            assert_eq!(info.tempo_total_minutos, minutos(15));
            assert_eq!(info.baldeacoes, 0);
        }
        outro => panic!("expected a path, got {:?}", outro),
    }
}

#[test]
fn baldeacoes_recontadas_a_partir_do_caminho() {
    let grafo = Arc::new(rede_de_seis());
    for (inicio, linha) in [(0, None), (3, Some(CorLinha::Azul)), (4, None), (1, Some(CorLinha::Verde))] {
        let mut solucionador = SolucionadorAEstrela::novo(Arc::clone(&grafo), inicio, linha, 5);
        let info = caminho_encontrado(&executar_ate_o_fim(&mut solucionador, 10_000));
        let mut recontadas = 0;
        for par in info.estacoes_do_caminho.windows(2) {
            if let (Some(a), Some(b)) = (par[0].1, par[1].1) {
                if a != b {
                    recontadas += 1;
                }
            }
        }
        assert_eq!(info.baldeacoes, recontadas);
        assert_eq!(info.baldeacoes, contar_baldeacoes(&info.estacoes_do_caminho));
    }
}

#[test]
fn contagem_de_baldeacoes() {
    let a = Some(CorLinha::Azul);
    let v = Some(CorLinha::Vermelha);
    assert_eq!(contar_baldeacoes(&vec![]), 0);
    assert_eq!(contar_baldeacoes(&vec![(0, None)]), 0);
    assert_eq!(contar_baldeacoes(&vec![(0, None), (1, a)]), 0);
    assert_eq!(contar_baldeacoes(&vec![(0, a), (1, a)]), 0);
    assert_eq!(contar_baldeacoes(&vec![(0, a), (1, v)]), 1);
    assert_eq!(contar_baldeacoes(&vec![(0, None), (1, a), (2, v), (3, v), (4, a)]), 2);
    assert_eq!(contar_baldeacoes(&vec![(0, a), (1, None), (2, v)]), 0);
}

#[test]
fn linha_de_partida_conta_na_primeira_conexao() {
    let grafo = Arc::new(cadeia_de_quatro(CorLinha::Azul));
    let mut solucionador = SolucionadorAEstrela::novo(Arc::clone(&grafo), 0, Some(CorLinha::Verde), 3);
    let info = caminho_encontrado(&executar_ate_o_fim(&mut solucionador, 1000));
    assert_eq!(info.tempo_total_minutos, minutos(19));
    assert_eq!(info.baldeacoes, 1);
    assert_eq!(info.estacoes_do_caminho[0], (0, Some(CorLinha::Verde)));
}

/// The least time in which the states of `caminho` can be travelled in
/// order, or `None` where two of them are not joined by a connection.
fn tempo_ao_longo(grafo: &GrafoMetro, caminho: &[(usize, Option<CorLinha>)]) -> Option<u64> {
    let mut total = 0;
    for par in caminho.windows(2) {
        let (de, chegada) = par[0];
        let (para, linha) = par[1];
        let baldeacao = match (chegada, linha) {
            (Some(a), Some(b)) if a != b => TEMPO_BALDEACAO_MINUTOS,
            _ => 0,
        };
        let trecho = grafo.lista_adjacencia[de]
            .iter()
            .filter(|conexao| conexao.para_estacao == para && Some(conexao.cor_linha) == linha)
            .map(|conexao| conexao.tempo_minutos)
            .min()?;
        total += trecho + baldeacao;
    }
    Some(total)
}

#[test]
fn itinerario_e_uma_rota_do_grafo() {
    let mut inconsistente = GrafoMetro::com_estacoes(6);
    ligar(&mut inconsistente, 0, 1, CorLinha::Azul, minutos(4));
    ligar(&mut inconsistente, 0, 2, CorLinha::Azul, minutos(1));
    ligar(&mut inconsistente, 2, 1, CorLinha::Azul, minutos(1));
    ligar(&mut inconsistente, 1, 5, CorLinha::Verde, minutos(10));
    ligar(&mut inconsistente, 1, 5, CorLinha::Verde, minutos(9));
    inconsistente.distancias_heuristicas_km[2][5] = Some(2_500);
    for grafo in [Arc::new(rede_de_seis()), Arc::new(inconsistente)] {
        for inicio in 0..5 {
            for linha in [None, Some(CorLinha::Amarela)] {
                let mut solucionador = SolucionadorAEstrela::novo(Arc::clone(&grafo), inicio, linha, 5);
                let eventos = executar_ate_o_fim(&mut solucionador, 10_000);
                if let Some(EventoVisual::CaminhoEncontrado { info_caminho }) = eventos.last() {
                    assert!(info_caminho.cadeia_completa);
                    assert_eq!(info_caminho.estacoes_do_caminho[0], (inicio, linha));
                    assert_eq!(info_caminho.estacoes_do_caminho.last().unwrap().0, 5);
                    assert_eq!(
                        tempo_ao_longo(&grafo, &info_caminho.estacoes_do_caminho),
                        Some(info_caminho.tempo_total_minutos)
                    );
                    assert_eq!(info_caminho.baldeacoes, contar_baldeacoes(&info_caminho.estacoes_do_caminho));
                } else {
                    assert_eq!(tempo_minimo(&grafo, inicio, linha, 5), None);
                }
            }
        }
    }
}
