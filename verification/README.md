# noir_atelier

The logic of the NOIR ATELIER clothing shop's web client, verified with Verus:
the outfit calculator, the catalogue and its search, price formatting, the
calls to the shop's REST API and how their answers are judged, the colour
theme, and the status lines of the pages.

- `src/` is the verified library (`calculator`, `catalog`, `models`, `api`,
  `theme`, `messages`, `wardrobe`, `text`).
- `tests/` runs the library on concrete values.
- `app/` is the Yew single-page application around the library: routing,
  pages, local storage, HTTP requests and the serde forms of the data types.
