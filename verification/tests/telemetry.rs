use fleetgate::data::Position;
use fleetgate::data::PositionCoordinates;
use fleetgate::data::PositionFreeData;
use fleetgate::data::PositionInput;
use fleetgate::data::PositionOutput;
use fleetgate::docstore::DocumentStore;
use fleetgate::docstore::StoreError;
use fleetgate::data::User;
use fleetgate::telemetry::NormalizeError;
use fleetgate::telemetry::PositionDocument;
use fleetgate::telemetry::normalize;
use fleetgate::telemetry::normalize_now;

fn sample_position() -> Position {
    Position {
        id_equipamento: 77,
        veiculo: 12,
        placa: "ABC-1234".to_string(),
        cliente: "Acme Fleet".to_string(),
        data_posicao: "2016-12-15T11:33:24Z".to_string(),
        data_chegada: "1999-01-01T00:00:00Z".to_string(),
        endereco: "Avenida Paulista".to_string(),
        bairro: "Bela Vista".to_string(),
        municipio: "Sao Paulo".to_string(),
        numero: "1578".to_string(),
        estado: "SP".to_string(),
        coordenadas: PositionCoordinates {
            Type: "whatever-arrived".to_string(),
            coordinates: [(-46.6f64).to_bits(), (-23.5f64).to_bits()],
        },
        pais: "BR".to_string(),
        velocidade_via: 60,
        gps: true,
        motorista_ibutton: "0000-1111".to_string(),
        entradas: PositionInput {
            ignicao: true,
            entrada1: false,
            entrada2: true,
            entrada3: false,
            entrada4: false,
            entrada5: true,
            entrada6: false,
            entrada7: true,
        },
        saidas: PositionOutput {
            saida0: false,
            saida1: true,
            saida2: false,
            saida3: true,
            saida4: false,
            saida5: false,
            saida6: true,
            saida7: false,
        },
        odometro_adicionado: true,
        horimetro_adicionado: false,
        inicio_rota: true,
        fim_rota: false,
        EmRe: false,
        DadoLivre: PositionFreeData {
            Analogico1: true,
            Analogico2: false,
            Analogico3: false,
            Analogico4: true,
            Horimetro: 1234.5f32.to_bits(),
            AcelerometroX: 0.25f32.to_bits(),
            Digital1: false,
            Digital2: true,
            Digital3: false,
            Digital4: false,
            AcelerometroY: (-0.5f32).to_bits(),
            Hodometro: 98765.0f32.to_bits(),
            Rpm: 2100,
            Freio: false,
        },
        tipo: "GPRS".to_string(),
        lapso: "60".to_string(),
    }
}

fn normalize_or_panic(p: &Position, now: i64) -> PositionDocument {
    match normalize(p, now) {
        Ok(d) => d,
        Err(_) => panic!("normalization failed on a well-formed payload"),
    }
}

#[test]
fn normalize_parses_report_timestamp() {
    let d = normalize_or_panic(&sample_position(), 5);
    assert_eq!(d.data_posicao, 1481801604000);
}

#[test]
fn normalize_sets_arrival_to_clock_value_not_payload() {
    let d = normalize_or_panic(&sample_position(), 424242);
    assert_eq!(d.data_chegada, 424242);
}

#[test]
fn normalize_rejects_unparsable_timestamp() {
    let mut p = sample_position();
    p.data_posicao = "not-a-timestamp".to_string();
    match normalize(&p, 5) {
        Ok(_) => panic!("an unparsable report timestamp must be rejected"),
        Err(e) => assert_eq!(e, NormalizeError::InvalidTimestamp),
    }
}

#[test]
fn normalize_builds_tagged_geo_point_in_order() {
    let d = normalize_or_panic(&sample_position(), 5);
    assert_eq!(d.coordenadas.Type, "Point");
    assert_eq!(f64::from_bits(d.coordenadas.coordinates[0]), -46.6);
    assert_eq!(f64::from_bits(d.coordenadas.coordinates[1]), -23.5);
}

#[test]
fn normalize_copies_fields_verbatim() {
    let p = sample_position();
    let d = normalize_or_panic(&p, 5);
    assert_eq!(d.id_equipamento, p.id_equipamento);
    assert_eq!(d.veiculo, p.veiculo);
    assert_eq!(d.placa, p.placa);
    assert_eq!(d.cliente, p.cliente);
    assert_eq!(d.endereco, p.endereco);
    assert_eq!(d.bairro, p.bairro);
    assert_eq!(d.municipio, p.municipio);
    assert_eq!(d.numero, p.numero);
    assert_eq!(d.estado, p.estado);
    assert_eq!(d.pais, p.pais);
    assert_eq!(d.velocidade_via, p.velocidade_via);
    assert_eq!(d.gps, p.gps);
    assert_eq!(d.motorista_ibutton, p.motorista_ibutton);
    assert_eq!(d.entradas, p.entradas);
    assert_eq!(d.saidas, p.saidas);
    assert_eq!(d.odometro_adicionado, p.odometro_adicionado);
    assert_eq!(d.horimetro_adicionado, p.horimetro_adicionado);
    assert_eq!(d.inicio_rota, p.inicio_rota);
    assert_eq!(d.fim_rota, p.fim_rota);
    assert_eq!(d.EmRe, p.EmRe);
    assert_eq!(d.DadoLivre, p.DadoLivre);
    assert_eq!(d.tipo, p.tipo);
    assert_eq!(d.lapso, p.lapso);
}

#[test]
fn normalize_now_arrival_is_ordered_after_call_start() {
    let before = chrono::Utc::now().timestamp_millis();
    let d = match normalize_now(&sample_position()) {
        Ok(d) => d,
        Err(_) => panic!("normalization failed on a well-formed payload"),
    };
    let after = chrono::Utc::now().timestamp_millis();
    assert!(before <= d.data_chegada);
    assert!(d.data_chegada <= after);
}

#[test]
fn position_round_trip_through_store() {
    let p = sample_position();
    let mut store = DocumentStore::new();
    store.insert_position(normalize_or_panic(&p, 777));
    assert_eq!(store.position_count(), 1);
    let back = store.position_at(0);
    assert_eq!(back.placa, p.placa);
    assert_eq!(back.cliente, p.cliente);
    assert_eq!(back.endereco, p.endereco);
    assert_eq!(back.coordenadas.coordinates, p.coordenadas.coordinates);
    assert_eq!(back.entradas, p.entradas);
    assert_eq!(back.saidas, p.saidas);
    assert_eq!(back.DadoLivre, p.DadoLivre);
    assert_eq!(back.tipo, p.tipo);
    assert_eq!(back.lapso, p.lapso);
    assert_eq!(back.data_posicao, 1481801604000);
    assert_eq!(back.data_chegada, 777);
    assert_eq!(back.coordenadas.Type, "Point");
}

#[test]
fn user_documents_insert_enumerate_delete() {
    let mut store = DocumentStore::new();
    let id_a = store.insert_user(User {
        firstname: "Ada".to_string(),
        lastname: "L".to_string(),
        email: "ada@example.com".to_string(),
    });
    let id_b = store.insert_user(User {
        firstname: "Bob".to_string(),
        lastname: "M".to_string(),
        email: "bob@example.com".to_string(),
    });
    assert_ne!(id_a, id_b);
    assert_eq!(store.users_all().len(), 2);
    assert_eq!(store.delete_user_by_id(id_a), Ok(()));
    assert_eq!(store.users_all().len(), 1);
    assert_eq!(store.users_all()[0].id, id_b);
    assert_eq!(store.users_all()[0].user.email, "bob@example.com");
    assert_eq!(store.delete_user_by_id(id_a), Err(StoreError::NotFound));
    assert_eq!(store.users_all().len(), 1);
}
