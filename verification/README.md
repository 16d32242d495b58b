# reqmeshval

Validador de Elementos de Requisito do ReqMesh: confere arquivos TOML
contra um schema versionado e localizado (nomes de campo e valores por
idioma) e escreve um relatório no idioma pedido, ou no que cada arquivo
declara (`--idioma auto`).

A biblioteca (`src/`) é verificada com Verus: cada função pública diz no
contrato o que devolve, e as propriedades que valem entre funções estão
provadas como funções `lei_*`.

- `cli`: linha de comando como dados (`parse_cli`, `dir_catalogos`).
- `idiomas`, `catalogos`: catálogos de mensagens, recuo para o idioma de
  reserva, interpolação e plurais.
- `completude`: prova de que toda mensagem sai completa em cada catálogo
  embutido.
- `diagnostico`: diagnósticos (`Msg`, `Local`, `Nivel`) e o `Relatorio`.
- `validacao`: validação de um documento contra o `Schema`.
- `execucao`: desfecho da carga do schema, texto do log, veredito final.
- `caminho`: nome de arquivo e versão a partir de um caminho.
- `mapa`, `texto`, `valor`: mapa ordenado por chave de texto, operações
  de texto e o valor TOML lido.

O programa (`app/`) lê argumentos, ambiente e arquivos, interpreta o
schema e os catálogos do disco, e imprime o que a biblioteca monta.
