use vitela::imagenes::{bytes_de_marca, motivo_de_imagen, ninguna_imagen, png_en_base64, texto_de_marca, FalloDeImagen, InformeImagenes};

#[test]
fn las_imagenes_que_no_se_leen_se_saltan_con_su_motivo() {
    let mut informe = InformeImagenes::nuevo();
    informe.salta("/fotos/uno.jpg", motivo_de_imagen(&FalloDeImagen::Danada));
    informe.salta("/fotos/dos.heic", motivo_de_imagen(&FalloDeImagen::FormatoDesconocido));
    assert_eq!(informe.saltadas, vec!["/fotos/uno.jpg".to_string(), "/fotos/dos.heic".to_string()]);
    assert_eq!(informe.nombre(1), "dos.heic");
    assert_eq!(
        ninguna_imagen(&informe),
        "No se ha podido leer ninguna de las imágenes: uno.jpg (El fichero está dañado o no es una imagen), dos.heic (Vitela no entiende ese formato de imagen)"
    );
    assert_eq!(motivo_de_imagen(&FalloDeImagen::NoEncontrada), "El fichero ya no está donde estaba");
    assert_eq!(motivo_de_imagen(&FalloDeImagen::SinTamano), "La imagen no tiene tamaño");
}

#[test]
fn el_contenido_de_una_imagen_va_en_base64_estandar() {
    assert_eq!(png_en_base64(b"abc"), "YWJj");
    assert_eq!(png_en_base64(&[0x89, b'P', b'N', b'G']), "iVBORw==");
    assert_eq!(png_en_base64(b""), "");
    assert_eq!(png_en_base64(&[0xfb, 0xff]).len(), 4);
}

#[test]
fn la_marca_de_agua_lee_su_imagen_y_su_texto() {
    assert_eq!(bytes_de_marca("data:image/png;base64,YWJj").unwrap(), b"abc".to_vec());
    assert_eq!(bytes_de_marca("YWJj").unwrap(), b"abc".to_vec());
    assert_eq!(bytes_de_marca("data:x,%%%").unwrap_err(), "La imagen de la marca de agua no se ha podido leer");
    assert_eq!(texto_de_marca("   ", false).unwrap_err(), "La marca de agua está vacía");
    assert_eq!(texto_de_marca("   ", true).unwrap(), "");
    assert_eq!(texto_de_marca("  BORRADOR ", false).unwrap(), "BORRADOR");
}
