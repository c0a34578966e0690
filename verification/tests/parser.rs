use failcat::parse::{car_from_text, find_sub};
use failcat::serial::SerialNumber;

const DOC_TEXT: &str = "DESC MODEL/OPT.CODE AB/CD EXTERIOR COLOR RED INTERIOR COLOR BLK \
VEHICLE ID NUMBER 5XYP24GCXPG100000 PORT OF ENTRY PX Sold To: 12345 DEALER Ship To: 67890";

#[test]
fn find_sub_locates_first_occurrence() {
    assert_eq!(find_sub("abcabc", "bc"), Some(1));
    assert_eq!(find_sub("abcabc", "zz"), None);
    assert_eq!(find_sub("", "a"), None);
    assert_eq!(find_sub("abc", ""), Some(0));
}

#[test]
fn parses_document_text_into_record() {
    let car = car_from_text(DOC_TEXT, String::from("ts")).expect("text should parse");
    assert_eq!(car.id, None);
    assert_eq!(car.vin.0, "5XYP24GCXPG100000");
    assert_eq!(car.car_model, "DESC");
    assert_eq!(car.opt_code, "CD");
    assert_eq!(car.ext_color, "RED");
    assert_eq!(car.int_color, "BLK");
    assert_eq!(car.sold_to, "12345");
    assert_eq!(car.ship_to, "67890");
    assert_eq!(car.created_date, "ts");
    assert_eq!(car.serial_number, SerialNumber(100000));
    assert_eq!(car.model_year, "2023");
}

#[test]
fn model_year_comes_from_the_serial_not_the_document() {
    let text = DOC_TEXT.replace("100000", "999999");
    let car = car_from_text(&text, String::from("ts")).expect("text should parse");
    assert_eq!(car.serial_number, SerialNumber(999999));
    assert_eq!(car.model_year, "2024");
}

#[test]
fn degenerate_text_yields_no_record() {
    assert!(car_from_text("", String::from("ts")).is_none());
    assert!(car_from_text("no anchors here at all", String::from("ts")).is_none());
}

#[test]
fn missing_second_slash_leaves_option_code_empty() {
    let text = DOC_TEXT.replace("AB/CD", "ABCDE");
    let car = car_from_text(&text, String::from("ts")).expect("text should parse");
    assert_eq!(car.opt_code, "");
}

#[test]
fn garbage_vin_tail_yields_no_record() {
    let text = DOC_TEXT.replace("5XYP24GCXPG100000", "5XYP24GCXPGZZZZZZ");
    assert!(car_from_text(&text, String::from("ts")).is_none());
}

/// A minimal one-page document with a single line of text, with the
/// cross-reference table computed from the assembled byte offsets.
fn minimal_pdf(text: &str) -> Vec<u8> {
    let contents = format!("BT /F1 10 Tf 20 700 Td ({}) Tj ET", text);
    let objects = vec![
        String::from("<< /Type /Catalog /Pages 2 0 R >>"),
        String::from("<< /Type /Pages /Kids [3 0 R] /Count 1 >>"),
        String::from(
            "<< /Type /Page /Parent 2 0 R /MediaBox [0 0 1500 792] \
             /Contents 4 0 R /Resources << /Font << /F1 5 0 R >> >> >>",
        ),
        format!(
            "<< /Length {} >>\nstream\n{}\nendstream",
            contents.len(),
            contents
        ),
        String::from("<< /Type /Font /Subtype /Type1 /BaseFont /Helvetica >>"),
    ];
    let mut pdf = String::from("%PDF-1.4\n");
    let mut offsets = Vec::new();
    for (i, body) in objects.iter().enumerate() {
        offsets.push(pdf.len());
        pdf.push_str(&format!("{} 0 obj\n{}\nendobj\n", i + 1, body));
    }
    let xref_at = pdf.len();
    pdf.push_str(&format!("xref\n0 {}\n", objects.len() + 1));
    pdf.push_str("0000000000 65535 f \n");
    for off in &offsets {
        pdf.push_str(&format!("{:010} 00000 n \n", off));
    }
    pdf.push_str(&format!(
        "trailer\n<< /Size {} /Root 1 0 R >>\nstartxref\n{}\n%%EOF\n",
        objects.len() + 1,
        xref_at
    ));
    pdf.into_bytes()
}

#[test]
fn extracted_document_text_parses_into_record() {
    let bytes = minimal_pdf(DOC_TEXT);
    let text =
        pdf_extract::extract_text_from_mem(&bytes).expect("extraction should succeed");
    let car = car_from_text(&text, String::from("ts")).expect("document should parse");
    assert_eq!(car.vin.0, "5XYP24GCXPG100000");
    assert_eq!(car.car_model, "DESC");
    assert_eq!(car.opt_code, "CD");
    assert_eq!(car.ext_color, "RED");
    assert_eq!(car.int_color, "BLK");
    assert_eq!(car.sold_to, "12345");
    assert_eq!(car.ship_to, "67890");
    assert_eq!(car.serial_number, SerialNumber(100000));
    assert_eq!(car.model_year, "2023");
}
