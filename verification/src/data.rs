//! Wire-level data shapes for the gateway: the login body, the administrative
//! user record, and the telemetry payload submitted by a vehicle.
//!
//! Floating-point readings (coordinates, odometer, hour meter, accelerometer
//! axes) are carried as their IEEE 754 bit patterns (`u64` for 64-bit values,
//! `u32` for 32-bit values). The gateway never does arithmetic on them: it
//! copies them verbatim into the stored document, so the bit pattern is the
//! value as far as this library is concerned. Callers convert with
//! `f64::to_bits` / `f64::from_bits` (and the `f32` equivalents) at the edge.

use vstd::prelude::*;

verus! {

/// Body of a login request: a login identifier and a plaintext password.
pub struct UserLogin {
    pub email: String,
    pub password: String,
}

/// An administrative user record.
pub struct User {
    pub firstname: String,
    pub lastname: String,
    pub email: String,
}

/// A tagged geographic point: a type label and a `[longitude, latitude]`
/// pair, each coordinate a 64-bit IEEE 754 bit pattern.
#[allow(non_snake_case)]
pub struct PositionCoordinates {
    pub Type: String,
    pub coordinates: [u64; 2],
}

/// The eight discrete input lines of a telemetry report.
#[derive(PartialEq, Eq, Structural, Clone, Copy, Debug)]
pub struct PositionInput {
    pub ignicao: bool,
    pub entrada1: bool,
    pub entrada2: bool,
    pub entrada3: bool,
    pub entrada4: bool,
    pub entrada5: bool,
    pub entrada6: bool,
    pub entrada7: bool,
}

/// The eight discrete output lines of a telemetry report.
#[derive(PartialEq, Eq, Structural, Clone, Copy, Debug)]
pub struct PositionOutput {
    pub saida0: bool,
    pub saida1: bool,
    pub saida2: bool,
    pub saida3: bool,
    pub saida4: bool,
    pub saida5: bool,
    pub saida6: bool,
    pub saida7: bool,
}

/// The free-form sensor block of a telemetry report. The four meter and
/// accelerometer readings are 32-bit IEEE 754 bit patterns.
#[derive(PartialEq, Eq, Structural, Clone, Copy, Debug)]
#[allow(non_snake_case)]
pub struct PositionFreeData {
    pub Analogico1: bool,
    pub Analogico2: bool,
    pub Analogico3: bool,
    pub Analogico4: bool,
    pub Horimetro: u32,
    pub AcelerometroX: u32,
    pub Digital1: bool,
    pub Digital2: bool,
    pub Digital3: bool,
    pub Digital4: bool,
    pub AcelerometroY: u32,
    pub Hodometro: u32,
    pub Rpm: u32,
    pub Freio: bool,
}

/// One inbound telemetry report, exactly as submitted. The report timestamp
/// (`data_posicao`) and the arrival timestamp (`data_chegada`) arrive as
/// text; normalization parses the former and replaces the latter.
#[allow(non_snake_case)]
pub struct Position {
    pub id_equipamento: u32,
    pub veiculo: u32,
    pub placa: String,
    pub cliente: String,
    pub data_posicao: String,
    pub data_chegada: String,
    pub endereco: String,
    pub bairro: String,
    pub municipio: String,
    pub numero: String,
    pub estado: String,
    pub coordenadas: PositionCoordinates,
    pub pais: String,
    pub velocidade_via: u32,
    pub gps: bool,
    pub motorista_ibutton: String,
    pub entradas: PositionInput,
    pub saidas: PositionOutput,
    pub odometro_adicionado: bool,
    pub horimetro_adicionado: bool,
    pub inicio_rota: bool,
    pub fim_rota: bool,
    pub EmRe: bool,
    pub DadoLivre: PositionFreeData,
    pub tipo: String,
    pub lapso: String,
}

} // verus!
