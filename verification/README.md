# Zotero Reader

A read-only reader for a Zotero library on a Kobo.

The library under `src/` holds everything that the reader decides, written in
Verus and proved against its contracts:

- `text`, `number`, `bytes`, `json`: texts, decimal numbers, UTF-8 and JSON
  values;
- `model`, `zotero`, `bridge`, `cache`, `order`, `paper`, `tidy`: collections
  and papers as Zotero, the conversion bridge and the stored lists describe
  them;
- `fulltext`, `markup`, `prose`: documents made of indexed text, the markup that
  they can hold, and what they keep of the text;
- `keys`, `records`: the names that are usable, and the records that are kept;
- `work`, `reader`, `feed`, `shelf`, `reading`, `actions`, `answers`, `stored`:
  the reader as a state that events change, and that asks things of the device;
- `wording`, `screen`, `screens`: what is shown;
- `soundness`, `promises`: what holds in every state, and what the reader
  promises.

The program under `app/` connects the library to the device. It performs the
commands that the library leaves in its outbox, in order, and hands back what
comes of each.

The reader connects to `https://api.zotero.org` with a read-only key that the
device holds under the name `zotero`. A conversion bridge is optional: its bare
HTTPS origin is compiled in through `ZOTERO_READER_BRIDGE_ORIGIN`, and its
token is held under the name `zotero-bridge`.
