# wordbase

The core of a dictionary engine for language learners: terms and normalized
strings, Yomitan and Yomichan-local-audio dictionary records and their
import, deinflection and deconjugation, Japanese morae and pitch accent,
HTML rendering of structured glossaries, grouping of lookup results by
term, Anki note fields, and the byte layout of the term index.

`src/` is the library, written in Verus: each public function carries a
contract, and the laws that relate several functions (encodings that read
back, batches that lose no row, groupings that keep each term once, text
escaping that leaves no markup) are proof functions beside them.

`app/` is the program around it: a texthooker test server that forwards
lines typed on the terminal to WebSocket clients, the floating-point parts
(frequency means, import progress), and the serde forms of messages.

`tests/` runs the library on concrete values.
