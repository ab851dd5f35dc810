//! The telemetry normalizer: maps one inbound report into the document the
//! store persists.
//!
//! Every identity, location, I/O, sensor and flag field is carried over
//! verbatim. Two fields are not echoed: the report timestamp is parsed into
//! an instant (an unparsable one is a request-scoped failure, never a
//! crash), and the arrival timestamp is the server's clock reading at
//! normalization time, whatever the payload carried for it. The geo-point
//! is rebuilt from the coordinate pair under the fixed `Point` tag,
//! whatever tag arrived.

use vstd::prelude::*;
use crate::data::Position;
use crate::data::PositionCoordinates;
use crate::data::PositionFreeData;
use crate::data::PositionInput;
use crate::data::PositionOutput;

verus! {

/// The instant a timestamp text denotes, in milliseconds since the epoch,
/// or nothing when the text does not parse. Left uninterpreted: the trusted
/// wrapper below is the only thing that produces it.
pub uninterp spec fn parse_instant_of(s: Seq<char>) -> Option<i64>;

/// Relies on chrono's `DateTime<Utc>` parser (`FromStr`) and
/// `timestamp_millis`: the outcome is a function of the text alone.
#[verifier::external_body]
fn parse_instant(s: &str) -> (r: Option<i64>)
    ensures
        r == parse_instant_of(s@),
{
    match s.parse::<chrono::DateTime<chrono::Utc>>() {
        Ok(d) => Some(d.timestamp_millis()),
        Err(_) => None,
    }
}

/// Relies on chrono's `DateTime<Utc>` conversion from the system clock and
/// `timestamp_millis`: a clock reading, in milliseconds since the epoch.
/// The conversion handles readings before the epoch without panicking.
/// Nothing is assumed of the value.
#[verifier::external_body]
pub fn now_millis() -> i64 {
    chrono::DateTime::<chrono::Utc>::from(std::time::SystemTime::now()).timestamp_millis()
}

/// The fixed type tag of every stored geo-point.
pub open spec fn point_type_tag() -> Seq<char> {
    "Point"@
}

/// The persisted form of one telemetry report: the payload's fields with
/// the two timestamps resolved to instants and the geo-point tagged.
#[allow(non_snake_case)]
pub struct PositionDocument {
    pub id_equipamento: u32,
    pub veiculo: u32,
    pub placa: String,
    pub cliente: String,
    pub data_posicao: i64,
    pub data_chegada: i64,
    pub endereco: String,
    pub bairro: String,
    pub municipio: String,
    pub numero: String,
    pub estado: String,
    pub coordenadas: PositionCoordinates,
    pub pais: String,
    pub velocidade_via: u32,
    pub gps: bool,
    pub motorista_ibutton: String,
    pub entradas: PositionInput,
    pub saidas: PositionOutput,
    pub odometro_adicionado: bool,
    pub horimetro_adicionado: bool,
    pub inicio_rota: bool,
    pub fim_rota: bool,
    pub EmRe: bool,
    pub DadoLivre: PositionFreeData,
    pub tipo: String,
    pub lapso: String,
}

/// What normalization promises, field by field: `d` is the payload `p`
/// with the report timestamp resolved to `instant`, the arrival timestamp
/// set to `now` (the payload's own arrival text plays no part), the
/// geo-point rebuilt under the fixed tag with the coordinate pair in its
/// arriving order, and every other field verbatim.
pub open spec fn is_normalized(p: Position, instant: i64, now: i64, d: PositionDocument) -> bool {
    &&& d.id_equipamento == p.id_equipamento
    &&& d.veiculo == p.veiculo
    &&& d.placa@ == p.placa@
    &&& d.cliente@ == p.cliente@
    &&& d.data_posicao == instant
    &&& d.data_chegada == now
    &&& d.endereco@ == p.endereco@
    &&& d.bairro@ == p.bairro@
    &&& d.municipio@ == p.municipio@
    &&& d.numero@ == p.numero@
    &&& d.estado@ == p.estado@
    &&& d.coordenadas.Type@ == point_type_tag()
    &&& d.coordenadas.coordinates == p.coordenadas.coordinates
    &&& d.pais@ == p.pais@
    &&& d.velocidade_via == p.velocidade_via
    &&& d.gps == p.gps
    &&& d.motorista_ibutton@ == p.motorista_ibutton@
    &&& d.entradas == p.entradas
    &&& d.saidas == p.saidas
    &&& d.odometro_adicionado == p.odometro_adicionado
    &&& d.horimetro_adicionado == p.horimetro_adicionado
    &&& d.inicio_rota == p.inicio_rota
    &&& d.fim_rota == p.fim_rota
    &&& d.EmRe == p.EmRe
    &&& d.DadoLivre == p.DadoLivre
    &&& d.tipo@ == p.tipo@
    &&& d.lapso@ == p.lapso@
}

/// Why a submission was rejected.
#[derive(PartialEq, Eq, Structural, Clone, Copy, Debug)]
pub enum NormalizeError {
    /// The report timestamp did not parse as an instant. Fatal for the
    /// request, not for the process.
    InvalidTimestamp,
}

/// Normalizes one report against the given clock reading. Fails exactly
/// when the report timestamp does not parse.
pub fn normalize(p: &Position, now: i64) -> (r: Result<PositionDocument, NormalizeError>)
    ensures
        match r {
            Result::Ok(d) => parse_instant_of(p.data_posicao@) matches Some(instant)
                && is_normalized(*p, instant, now, d),
            Result::Err(e) => parse_instant_of(p.data_posicao@) is None && e
                == NormalizeError::InvalidTimestamp,
        },
{
    let instant = match parse_instant(p.data_posicao.as_str()) {
        Option::Some(t) => t,
        Option::None => {
            return Result::Err(NormalizeError::InvalidTimestamp);
        },
    };
    let tag: String = "Point".to_owned();
    Result::Ok(
        PositionDocument {
            id_equipamento: p.id_equipamento,
            veiculo: p.veiculo,
            placa: p.placa.clone(),
            cliente: p.cliente.clone(),
            data_posicao: instant,
            data_chegada: now,
            endereco: p.endereco.clone(),
            bairro: p.bairro.clone(),
            municipio: p.municipio.clone(),
            numero: p.numero.clone(),
            estado: p.estado.clone(),
            coordenadas: PositionCoordinates {
                Type: tag,
                coordinates: p.coordenadas.coordinates,
            },
            pais: p.pais.clone(),
            velocidade_via: p.velocidade_via,
            gps: p.gps,
            motorista_ibutton: p.motorista_ibutton.clone(),
            entradas: p.entradas,
            saidas: p.saidas,
            odometro_adicionado: p.odometro_adicionado,
            horimetro_adicionado: p.horimetro_adicionado,
            inicio_rota: p.inicio_rota,
            fim_rota: p.fim_rota,
            EmRe: p.EmRe,
            DadoLivre: p.DadoLivre,
            tipo: p.tipo.clone(),
            lapso: p.lapso.clone(),
        },
    )
}

/// Normalizes one report against the clock: the arrival instant is the
/// clock reading taken when the call starts.
pub fn normalize_now(p: &Position) -> (r: Result<PositionDocument, NormalizeError>)
    ensures
        match r {
            Result::Ok(d) => parse_instant_of(p.data_posicao@) matches Some(instant)
                && is_normalized(*p, instant, d.data_chegada, d),
            Result::Err(e) => parse_instant_of(p.data_posicao@) is None && e
                == NormalizeError::InvalidTimestamp,
        },
{
    let now = now_millis();
    normalize(p, now)
}

/// The arrival instant of a normalized document is the server's clock
/// reading, never a value echoed from the payload.
pub proof fn lemma_arrival_is_server_assigned(
    p: Position,
    instant: i64,
    now: i64,
    d: PositionDocument,
)
    requires
        is_normalized(p, instant, now, d),
    ensures
        d.data_chegada == now,
{
}

/// Two payloads that differ only in their arrival text normalize to the
/// same document: the arrival value present in the input plays no part.
pub proof fn lemma_arrival_text_ignored(
    p1: Position,
    p2: Position,
    instant: i64,
    now: i64,
    d1: PositionDocument,
    d2: PositionDocument,
)
    requires
        is_normalized(p1, instant, now, d1),
        is_normalized(p2, instant, now, d2),
        p1.id_equipamento == p2.id_equipamento,
        p1.veiculo == p2.veiculo,
        p1.placa@ == p2.placa@,
        p1.cliente@ == p2.cliente@,
        p1.endereco@ == p2.endereco@,
        p1.bairro@ == p2.bairro@,
        p1.municipio@ == p2.municipio@,
        p1.numero@ == p2.numero@,
        p1.estado@ == p2.estado@,
        p1.coordenadas.coordinates == p2.coordenadas.coordinates,
        p1.pais@ == p2.pais@,
        p1.velocidade_via == p2.velocidade_via,
        p1.gps == p2.gps,
        p1.motorista_ibutton@ == p2.motorista_ibutton@,
        p1.entradas == p2.entradas,
        p1.saidas == p2.saidas,
        p1.odometro_adicionado == p2.odometro_adicionado,
        p1.horimetro_adicionado == p2.horimetro_adicionado,
        p1.inicio_rota == p2.inicio_rota,
        p1.fim_rota == p2.fim_rota,
        p1.EmRe == p2.EmRe,
        p1.DadoLivre == p2.DadoLivre,
        p1.tipo@ == p2.tipo@,
        p1.lapso@ == p2.lapso@,
    ensures
        d1.id_equipamento == d2.id_equipamento,
        d1.data_posicao == d2.data_posicao,
        d1.data_chegada == d2.data_chegada,
        d1.placa@ == d2.placa@,
        d1.coordenadas.Type@ == d2.coordenadas.Type@,
        d1.coordenadas.coordinates == d2.coordenadas.coordinates,
        d1.entradas == d2.entradas,
        d1.saidas == d2.saidas,
        d1.DadoLivre == d2.DadoLivre,
{
}

} // verus!
