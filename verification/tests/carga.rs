use metro_paris_astar::algoritmo_a_estrela::{
    reconstruir_caminho, EstadoNoFronteira, EventoVisual, SolucionadorAEstrela,
};
use metro_paris_astar::dados_metro::ErroDeCarga;
use metro_paris_astar::grafo_metro::{Conexao, CorLinha, GrafoMetro, LIMITE_TEMPO_MINUTOS};
use metro_paris_astar::tabelas::{ConjuntoDeChaves, MapaDeChaves};
use std::sync::Arc;

fn registros(linhas: &[&[&str]]) -> Vec<Vec<String>> {
    linhas.iter().map(|campos| campos.iter().map(|campo| campo.to_string()).collect()).collect()
}

fn conexao(para: usize, linha: CorLinha, distancia: u64) -> Conexao {
    Conexao { para_estacao: para, cor_linha: linha, distancia_km: distancia, tempo_minutos: 2 * distancia }
}

#[test]
fn heuristicas_tomadas_dos_registros() {
    let mut grafo = GrafoMetro::com_estacoes(3);
    grafo.distancias_heuristicas_km[2][0] = Some(77);
    grafo.distancias_heuristicas_km[0][1] = Some(88);
    let tabela = registros(&[
        &["E1", "0", "10,3", " 18.5 "],
        &["E2", "10,3", "", "x", "99"],
        &["E3"],
        &["E4", "1", "2", "3"],
    ]);
    assert_eq!(grafo.aplicar_distancias_heuristicas(&tabela), Ok(()));
    assert_eq!(
        grafo.distancias_heuristicas_km,
        vec![
            vec![Some(0), Some(10_300), Some(18_500)],
            vec![Some(10_300), None, None],
            vec![Some(77), None, None],
        ]
    );
    assert!(grafo.validar());
    assert_eq!(grafo.obter_tempo_heuristico_minutos(0, 2), Some(37_000));
}

#[test]
fn heuristica_fora_do_limite_nao_carrega_nada() {
    let mut grafo = GrafoMetro::com_estacoes(2);
    grafo.distancias_heuristicas_km[0][0] = Some(5);
    let limite = LIMITE_TEMPO_MINUTOS / 2;
    let no_limite = format!("{},{:03}", limite / 1000, limite % 1000);
    let tabela = registros(&[&["E1", "1", &no_limite], &["E2", "2", "3"]]);
    assert_eq!(grafo.aplicar_distancias_heuristicas(&tabela), Ok(()));
    assert_eq!(grafo.distancias_heuristicas_km[0][1], Some(limite));

    let acima = format!("{},{:03}", (limite + 1) / 1000, (limite + 1) % 1000);
    let tabela = registros(&[&["E1", "7", "8"], &["E2", &acima, "99999999999999999999999"]]);
    assert_eq!(
        grafo.aplicar_distancias_heuristicas(&tabela),
        Err(ErroDeCarga::ValorForaDoLimite { linha: 1, coluna: 0 })
    );
    assert_eq!(
        grafo.distancias_heuristicas_km,
        vec![vec![Some(1_000), Some(limite)], vec![Some(2_000), Some(3_000)]]
    );
}

#[test]
fn conexoes_tomadas_dos_registros() {
    let mut grafo = GrafoMetro::com_estacoes(4);
    grafo.lista_adjacencia[0].push(conexao(3, CorLinha::Verde, 1));
    let distancias = registros(&[
        &["E1", "5", "10,3", "-1", "4"],
        &["E2", "10,3", "-1", "0", "7,25"],
        &["E3", "1", "2", "3", "4"],
    ]);
    let linhas = registros(&[
        &["E1", "1", "1", "2", "9"],
        &["E2", " 1 ", "0", "3", "4"],
        &["E3", "", "x", "2", "0"],
        &["E4", "1", "1", "1", "1"],
    ]);
    assert_eq!(grafo.aplicar_conexoes(&distancias, &linhas), Ok(()));
    assert_eq!(
        grafo.lista_adjacencia,
        vec![
            vec![conexao(3, CorLinha::Verde, 1), conexao(1, CorLinha::Azul, 10_300)],
            vec![conexao(0, CorLinha::Azul, 10_300), conexao(3, CorLinha::Verde, 7_250)],
            vec![],
            vec![],
        ]
    );
    assert_eq!(grafo.lista_adjacencia[1][1].tempo_minutos, 14_500);
    assert!(grafo.validar());
}

#[test]
fn conexao_fora_do_limite_nao_carrega_nada() {
    let mut grafo = GrafoMetro::com_estacoes(2);
    let acima = (LIMITE_TEMPO_MINUTOS / 2 + 1) / 1000 + 1;
    let distancias = registros(&[&["E1", "0", "3"], &["E2", &acima.to_string(), "0"]]);
    let linhas = registros(&[&["E1", "0", "2"], &["E2", "3", "0"]]);
    assert_eq!(
        grafo.aplicar_conexoes(&distancias, &linhas),
        Err(ErroDeCarga::ValorForaDoLimite { linha: 1, coluna: 0 })
    );
    assert!(grafo.lista_adjacencia[0].is_empty());
    assert!(grafo.lista_adjacencia[1].is_empty());
    // Without a line the distance is not looked at.
    let linhas = registros(&[&["E1", "0", "2"], &["E2", "0", "0"]]);
    assert_eq!(grafo.aplicar_conexoes(&distancias, &linhas), Ok(()));
    assert_eq!(grafo.lista_adjacencia[0], vec![conexao(1, CorLinha::Amarela, 3_000)]);
    assert!(grafo.lista_adjacencia[1].is_empty());
}

#[test]
fn heuristicas_carregadas_do_texto_da_tabela() {
    let mut grafo = GrafoMetro::com_estacoes(3);
    let conteudo = b";E1;E2;E3\nE1;0;10,3;18.5\nE2;10,3;0;\"8,2\"\nE3;18,5;8,2;0\nE4;1;1;1\n";
    assert_eq!(grafo.carregar_distancias_heuristicas(conteudo), Ok(()));
    assert_eq!(
        grafo.distancias_heuristicas_km,
        vec![
            vec![Some(0), Some(10_300), Some(18_500)],
            vec![Some(10_300), Some(0), Some(8_200)],
            vec![Some(18_500), Some(8_200), Some(0)],
        ]
    );
}

#[test]
fn tabela_sem_registros_nao_muda_o_grafo() {
    let mut grafo = GrafoMetro::com_estacoes(2);
    grafo.distancias_heuristicas_km[1][0] = Some(4);
    assert_eq!(grafo.carregar_distancias_heuristicas(b""), Ok(()));
    assert_eq!(grafo.carregar_distancias_heuristicas(b";E1;E2\n"), Ok(()));
    assert_eq!(grafo.distancias_heuristicas_km, vec![vec![None, None], vec![Some(4), None]]);
}

#[test]
fn registro_invalido_interrompe_a_carga() {
    let mut grafo = GrafoMetro::com_estacoes(3);
    // The second record has fewer fields than the header.
    let conteudo = b";E1;E2;E3\nE1;1;2;3\nE2;4\nE3;7;8;9\n";
    assert_eq!(
        grafo.carregar_distancias_heuristicas(conteudo),
        Err(ErroDeCarga::RegistroInvalido { registro: 1 })
    );
    assert_eq!(grafo.distancias_heuristicas_km, vec![vec![None; 3]; 3]);
    // The third record is not valid UTF-8.
    let conteudo = b";E1;E2;E3\nE1;1;2;3\nE2;4;5;6\nE3;\xff;8;9\n";
    assert_eq!(
        grafo.carregar_distancias_heuristicas(conteudo),
        Err(ErroDeCarga::RegistroInvalido { registro: 2 })
    );
    // A record after those of the graph's stations is not looked at.
    let mut menor = GrafoMetro::com_estacoes(2);
    assert_eq!(menor.carregar_distancias_heuristicas(conteudo), Ok(()));
    assert_eq!(
        menor.distancias_heuristicas_km,
        vec![vec![Some(1_000), Some(2_000)], vec![Some(4_000), Some(5_000)]]
    );
}

#[test]
fn conexoes_carregadas_do_texto_das_tabelas() {
    let mut grafo = GrafoMetro::com_estacoes(3);
    let distancias = b";E1;E2;E3\nE1;0;10;-1\nE2;10;0;8,5\nE3;-1;8,5;0\n";
    let linhas = b";E1;E2;E3\nE1;0;1;0\nE2;1;0;2\nE3;0;2;0\n";
    assert_eq!(grafo.carregar_conexoes(distancias, linhas), Ok(()));
    assert_eq!(
        grafo.lista_adjacencia,
        vec![
            vec![conexao(1, CorLinha::Azul, 10_000)],
            vec![conexao(0, CorLinha::Azul, 10_000), conexao(2, CorLinha::Amarela, 8_500)],
            vec![conexao(1, CorLinha::Amarela, 8_500)],
        ]
    );
    // The loaded network can be searched: 20 minutes on Azul, a transfer, 17 on Amarela.
    let mut solucionador = SolucionadorAEstrela::novo(Arc::new(grafo), 0, None, 2);
    let mut ultimo = solucionador.proximo_evento();
    while !solucionador.esta_finalizado() {
        ultimo = solucionador.proximo_evento();
    }
    assert_eq!(ultimo, EventoVisual::VerificandoSeEhObjetivo { id_estacao: 2, eh_objetivo: true });
    match solucionador.proximo_evento() {
        EventoVisual::CaminhoEncontrado { info_caminho } => {
            assert_eq!(info_caminho.tempo_total_minutos, 41_000);
            assert_eq!(info_caminho.baldeacoes, 1);
        }
        outro => panic!("expected a path, got {:?}", outro),
    }
}

#[test]
fn registro_invalido_nas_tabelas_de_conexoes() {
    let boas_distancias = b";E1;E2\nE1;0;10\nE2;10;0\n";
    let boas_linhas = b";E1;E2\nE1;0;1\nE2;1;0\n";
    let ruim_no_primeiro = b";E1;E2\nE1;0\nE2;10;0\n";
    let ruim_no_segundo = b";E1;E2\nE1;0;1\nE2;1\n";
    let mut grafo = GrafoMetro::com_estacoes(2);
    assert_eq!(
        grafo.carregar_conexoes(ruim_no_primeiro, ruim_no_segundo),
        Err(ErroDeCarga::RegistroInvalido { registro: 0 })
    );
    assert_eq!(
        grafo.carregar_conexoes(boas_distancias, ruim_no_segundo),
        Err(ErroDeCarga::RegistroInvalido { registro: 1 })
    );
    assert_eq!(
        grafo.carregar_conexoes(ruim_no_primeiro, boas_linhas),
        Err(ErroDeCarga::RegistroInvalido { registro: 0 })
    );
    assert!(grafo.lista_adjacencia.iter().all(|conexoes| conexoes.is_empty()));
    assert_eq!(grafo.carregar_conexoes(boas_distancias, boas_linhas), Ok(()));
    assert_eq!(grafo.lista_adjacencia[0], vec![conexao(1, CorLinha::Azul, 10_000)]);
}

#[test]
fn conjunto_de_chaves() {
    let mut conjunto = ConjuntoDeChaves::novo(3);
    assert_eq!(conjunto.estacoes(), 3);
    assert!(!conjunto.contem(1, None));
    conjunto.inserir(1, None);
    conjunto.inserir(1, Some(CorLinha::Nenhuma));
    conjunto.inserir(2, Some(CorLinha::Azul));
    conjunto.inserir(1, None);
    assert!(conjunto.contem(1, None));
    assert!(conjunto.contem(1, Some(CorLinha::Nenhuma)));
    assert!(conjunto.contem(2, Some(CorLinha::Azul)));
    assert!(!conjunto.contem(2, None));
    assert!(!conjunto.contem(0, Some(CorLinha::Nenhuma)));
    assert!(!conjunto.contem(1, Some(CorLinha::Azul)));
    let copia = conjunto.copiar();
    conjunto.inserir(0, Some(CorLinha::Verde));
    assert!(conjunto.contem(0, Some(CorLinha::Verde)));
    assert!(!copia.contem(0, Some(CorLinha::Verde)));
    assert!(copia.contem(2, Some(CorLinha::Azul)));
}

#[test]
fn mapa_de_chaves() {
    let mut mapa: MapaDeChaves<u64> = MapaDeChaves::novo(2);
    assert_eq!(mapa.estacoes(), 2);
    assert_eq!(mapa.obter(0, None), None);
    mapa.inserir(0, None, 5);
    mapa.inserir(1, Some(CorLinha::Verde), 7);
    mapa.inserir(0, None, 3);
    assert_eq!(mapa.obter(0, None), Some(3));
    assert_eq!(mapa.obter(1, Some(CorLinha::Verde)), Some(7));
    assert_eq!(mapa.obter(1, Some(CorLinha::Vermelha)), None);
    assert_eq!(mapa.obter(0, Some(CorLinha::Nenhuma)), None);
    let copia = mapa.copiar();
    mapa.inserir(1, Some(CorLinha::Verde), 1);
    assert_eq!(copia.obter(1, Some(CorLinha::Verde)), Some(7));
    assert_eq!(mapa.obter(1, Some(CorLinha::Verde)), Some(1));
}

fn no_final(id: usize, linha: Option<CorLinha>, custo: u64) -> EstadoNoFronteira {
    EstadoNoFronteira { id_estacao: id, linha_chegada: linha, custo_f: custo, custo_g_viagem: custo, caminho: vec![id] }
}

#[test]
fn caminho_reconstruido_pelos_elos() {
    let azul = Some(CorLinha::Azul);
    let verde = Some(CorLinha::Verde);
    let mut elos: MapaDeChaves<(usize, Option<CorLinha>, CorLinha)> = MapaDeChaves::novo(5);
    elos.inserir(1, azul, (0, None, CorLinha::Azul));
    elos.inserir(2, verde, (1, azul, CorLinha::Verde));
    elos.inserir(3, verde, (2, verde, CorLinha::Verde));
    let info = reconstruir_caminho(&elos, 0, None, &no_final(3, verde, 42));
    assert_eq!(info.estacoes_do_caminho, vec![(0, None), (1, azul), (2, verde), (3, verde)]);
    assert_eq!(info.tempo_total_minutos, 42);
    assert_eq!(info.baldeacoes, 1);
    assert!(info.cadeia_completa);

    let so_a_origem = reconstruir_caminho(&elos, 0, None, &no_final(0, None, 0));
    assert_eq!(so_a_origem.estacoes_do_caminho, vec![(0, None)]);
    assert!(so_a_origem.cadeia_completa);
}

#[test]
fn cadeia_interrompida_devolve_o_trecho_obtido() {
    let azul = Some(CorLinha::Azul);
    let verde = Some(CorLinha::Verde);
    let mut elos: MapaDeChaves<(usize, Option<CorLinha>, CorLinha)> = MapaDeChaves::novo(5);
    elos.inserir(3, verde, (2, verde, CorLinha::Verde));
    elos.inserir(2, verde, (1, azul, CorLinha::Verde));
    // The state (1, Azul) has no back-link and is not the origin.
    let info = reconstruir_caminho(&elos, 0, None, &no_final(3, verde, 9));
    assert_eq!(info.estacoes_do_caminho, vec![(1, azul), (2, verde), (3, verde)]);
    assert_eq!(info.tempo_total_minutos, 9);
    assert_eq!(info.baldeacoes, 1);
    assert!(!info.cadeia_completa);

    // A back-link that names another line than the one its state was
    // reached by is not followed.
    let mut trocado: MapaDeChaves<(usize, Option<CorLinha>, CorLinha)> = MapaDeChaves::novo(5);
    trocado.inserir(3, verde, (2, verde, CorLinha::Azul));
    let info = reconstruir_caminho(&trocado, 0, None, &no_final(3, verde, 9));
    assert_eq!(info.estacoes_do_caminho, vec![(3, verde)]);
    assert!(!info.cadeia_completa);
}

#[test]
fn cadeia_em_ciclo_termina() {
    let azul = Some(CorLinha::Azul);
    let mut elos: MapaDeChaves<(usize, Option<CorLinha>, CorLinha)> = MapaDeChaves::novo(2);
    elos.inserir(0, azul, (1, azul, CorLinha::Azul));
    elos.inserir(1, azul, (0, azul, CorLinha::Azul));
    let info = reconstruir_caminho(&elos, 0, None, &no_final(1, azul, 3));
    // Twelve links are followed, one for each state of a graph of two
    // stations, so the chain holds thirteen states.
    assert_eq!(info.estacoes_do_caminho.len(), 13);
    assert_eq!(info.estacoes_do_caminho[12], (1, azul));
    assert_eq!(info.estacoes_do_caminho[0], (1, azul));
    assert_eq!(info.baldeacoes, 0);
    assert!(!info.cadeia_completa);
}
