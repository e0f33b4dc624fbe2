use vitela::errores::mensaje_llano;

#[test]
fn mensaje_llano_traduce_la_jerga_y_respeta_lo_nuestro() {
    // el Display de PdfiumError es el Debug de Rust, multilínea
    let e = mensaje_llano("PdfiumLibraryInternalError(\n    FormatError,\n)");
    assert_eq!(e, "El PDF parece dañado; prueba con otra copia del documento");
    assert_eq!(
        mensaje_llano("PageIndexOutOfBounds"),
        "Esa página ya no está en el documento; ciérralo y vuelve a abrirlo"
    );
    // el contexto que escribimos nosotros se conserva; la cola, no
    assert_eq!(
        mensaje_llano("No se ha podido escribir /tmp/x.png: No such file or directory (os error 2)"),
        "No se ha podido escribir /tmp/x.png: no se encuentra el fichero; puede que se haya movido o borrado"
    );
    // un mensaje ya llano pasa igual (idempotente)
    let llano = "El área de recorte es demasiado pequeña";
    assert_eq!(mensaje_llano(llano), llano);
    assert_eq!(mensaje_llano(&mensaje_llano(llano)), llano);
}

#[test]
fn cada_causa_conocida_sale_en_llano() {
    assert_eq!(mensaje_llano("PasswordError"), "La contraseña no es correcta");
    assert_eq!(mensaje_llano("x: Permission denied (os error 13)"), "No hay permiso para escribir ahí; elige otra carpeta");
    assert_eq!(mensaje_llano("No space left on device (os error 28)"), "No queda espacio en el disco");
    assert_eq!(
        mensaje_llano("dlopen failed: cannot open shared object file"),
        "Falta el motor PDF (libpdfium); reinstala la aplicación"
    );
    // un contexto con pinta de jerga no se conserva
    assert_eq!(
        mensaje_llano("Error(\"x\"): FormatError"),
        "El PDF parece dañado; prueba con otra copia del documento"
    );
    assert_eq!(mensaje_llano("  varias   palabras \n sueltas "), "varias palabras sueltas");
}
