use remitos::models::{Cliente, Empresa, Remito, RemitoCompleto, RemitoItem};
use remitos::pdf::generate_remito_pdf;

#[test]
fn generated_pdf_is_a_pdf_file() {
    let empresa = Empresa {
        id: 1,
        nombre: "Empresa".to_string(),
        direccion: "Dir".to_string(),
        cuit: "1".to_string(),
        telefono: "2".to_string(),
        updated_at: String::new(),
    };
    let cliente = Cliente {
        id: 2,
        nombre: "Cliente".to_string(),
        direccion: "Dir".to_string(),
        cuit_dni: "3".to_string(),
        telefono: "4".to_string(),
        created_at: String::new(),
        updated_at: String::new(),
    };
    let remito = RemitoCompleto {
        remito: Remito { id: 1, cliente_id: 2, fecha: "2024-01-01".to_string(), total_centavos: 100, created_at: String::new() },
        items: vec![RemitoItem {
            id: 1,
            remito_id: 1,
            producto_id: Some(1),
            nombre_producto: "P".to_string(),
            precio_unitario_centavos: 100,
            cantidad: 1,
            subtotal_centavos: 100,
        }],
    };
    let bytes = generate_remito_pdf(&empresa, &cliente, &remito).expect("pdf");
    assert!(bytes.starts_with(b"%PDF-"));
    assert!(bytes.ends_with(b"%%EOF"));
}
