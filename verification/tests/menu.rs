use vitela::menu::{atajos, entradas, estructura, hay_repetidos, ids, nativa_visible, nativas, refleja_documento, Elemento, Entrada, Nativa, EVENTO};

/// Los `id` son el contrato con la UI: no puede haber dos iguales ni
/// ninguno vacío, ni una entrada sin etiqueta.
#[test]
fn los_ids_del_menu_son_unicos_y_estan_completos() {
    let mut vistos: Vec<&str> = Vec::new();
    for grupo in estructura() {
        assert!(!grupo.titulo.is_empty(), "un grupo sin título");
        let entradas: Vec<Entrada> = grupo
            .entradas
            .into_iter()
            .filter_map(|el| match el {
                Elemento::Accion(entrada) => Some(entrada),
                _ => None,
            })
            .collect();
        assert!(!entradas.is_empty(), "el grupo {} está vacío", grupo.titulo);
        for entrada in entradas {
            assert!(!entrada.id.is_empty(), "entrada sin id en {}", grupo.titulo);
            assert!(!entrada.etiqueta.is_empty(), "entrada {} sin etiqueta", entrada.id);
            assert!(!vistos.contains(&entrada.id), "el id {} está dos veces", entrada.id);
            if let Some(atajo) = entrada.atajo {
                assert!(!atajo.contains(' '), "el atajo de {} no es sintaxis de Tauri: {atajo}", entrada.id);
            }
            vistos.push(entrada.id);
        }
    }
    assert!(vistos.len() > 30, "el menú nativo se ha quedado corto");
    assert_eq!(vistos, ids(), "ids() y estructura() no dicen lo mismo");
    assert!(!hay_repetidos(&ids()));
}

/// Dos entradas con el mismo atajo son una que no funciona.
#[test]
fn ningun_atajo_esta_dos_veces() {
    let mut vistos: Vec<(&str, &str)> = Vec::new();
    for entrada in entradas(&estructura()) {
        let Some(atajo) = entrada.atajo else { continue };
        if let Some((otro, _)) = vistos.iter().find(|(_, a)| *a == atajo) {
            panic!("{atajo} está en {otro} y en {}", entrada.id);
        }
        vistos.push((entrada.id, atajo));
    }
    assert!(
        vistos.iter().any(|(id, a)| *id == "atajos" && *a == "CmdOrCtrl+/"),
        "la pantalla que enseña los atajos tiene que tener el suyo"
    );
    let lista = atajos(&entradas(&estructura()));
    assert_eq!(lista, vistos);
    let solo: Vec<&'static str> = lista.iter().map(|(_, a)| *a).collect();
    assert!(!hay_repetidos(&solo));
}

/// Sin documento abierto, lo que necesita uno se atenúa; lo que no, sigue
/// disponible (abrir, preferencias, atajos).
#[test]
fn sin_documento_solo_quedan_las_entradas_que_valen_sin_el() {
    let sueltas: Vec<&str> = entradas(&estructura())
        .into_iter()
        .filter(|e| !e.necesita_documento)
        .map(|e| e.id)
        .collect();
    for id in ["abrir", "preferencias", "atajos", "panel-lateral"] {
        assert!(sueltas.contains(&id), "{id} tiene que valer sin documento");
    }
    for id in ["guardar", "imprimir", "firmar", "redactar"] {
        assert!(!sueltas.contains(&id), "{id} necesita un documento abierto");
    }
    let sin = refleja_documento(&estructura(), false);
    let con = refleja_documento(&estructura(), true);
    assert!(con.iter().all(|(_, activa)| *activa));
    for (id, activa) in sin {
        assert_eq!(activa, sueltas.contains(&id), "{id}");
    }
}

/// Salir y Acerca de son del sistema; Copiar y Seleccionar todo emiten
/// `menu-accion` como el resto.
#[test]
fn copiar_y_seleccionar_todo_emiten_evento_y_salir_es_del_sistema() {
    let nativas_del_menu: Vec<Nativa> = estructura()
        .into_iter()
        .flat_map(|g| g.entradas)
        .filter_map(|el| match el {
            Elemento::Nativa(n) => Some(n),
            _ => None,
        })
        .collect();
    for n in [Nativa::Salir, Nativa::AcercaDe] {
        assert!(nativas_del_menu.contains(&n), "falta la entrada nativa {n:?}");
    }
    assert_eq!(nativas(&estructura()), nativas_del_menu);
    for id in ["copiar", "seleccionar-todo"] {
        assert!(ids().contains(&id), "{id} tiene que emitir menu-accion, no resolverlo el sistema");
    }
    for id in ids() {
        assert!(!["salir", "acerca-de"].contains(&id), "{id} tiene que ser una entrada nativa, no un id");
    }
    assert_eq!(EVENTO, "menu-accion");
}

#[test]
fn en_macos_salir_y_acerca_de_no_se_repiten() {
    assert!(!nativa_visible(Nativa::Salir, true));
    assert!(!nativa_visible(Nativa::AcercaDe, true));
    assert!(nativa_visible(Nativa::Salir, false));
    assert!(Nativa::Salir.solo_fuera_de_macos());
}
