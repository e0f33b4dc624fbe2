# vitela

La lógica de Vitela, un editor de PDF de escritorio, como biblioteca
verificada con Verus: lo que decide el programa (el historial de deshacer,
la lista de recientes, la recuperación de sesiones, la imposición para
imprimir, el orden y el reparto de páginas, los nombres de los campos de
formulario y lo que se decide al crear uno, la escritura y la lectura de un XFDF de respuestas, la consulta OCSP de un
certificado, el menú, el arranque…) con sus contratos probados.

- `src/`: la biblioteca. Cada módulo lleva sus funciones con `requires` y
  `ensures`, los modelos en funciones `spec` y las leyes que relacionan unas
  operaciones con otras como funciones `proof` públicas (`ley_*`). Lo que se
  pide a otros crates (`chrono`, `x509-cert`, `sha1`, `quick-xml`, `base64`) y a la
  biblioteca estándar pasa por envoltorios pequeños marcados
  `#[verifier::external_body]`, cada uno con el contrato que su
  documentación respalda.
- `tests/`: pruebas con valores concretos, que se ejecutan con los crates de
  verdad enlazados.
- `app/`: lo que no cabe en la biblioteca (el disco, el JSON, el PDF con
  `lopdf`, el estado global); lee, llama a la biblioteca y escribe.
