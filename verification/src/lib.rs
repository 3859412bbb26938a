//! Route planning over a small multi-line metro network.

pub mod algoritmo_a_estrela;
pub mod dados_metro;
pub mod decimal;
pub mod grafo_metro;
pub mod invariantes;
pub mod leis;
pub mod modelo;
pub mod otimalidade;
pub mod rotas;
pub mod tabelas;
pub mod texto;
