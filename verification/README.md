# chat_assistant

The core of a voice assistant (wake word, streaming recognition, a
language model with tools, speech synthesis), written in Verus.

- `src/` is the verified library: reply segmentation at `<stop/>` markers
  (`llm`, `tts`), decoding the synthesized MP3 audio to samples
  (`tts::mp3`), conversation sessions (`session`), short- and long-term
  memory (`memory`), the tool-server protocol and configuration (`tools`),
  model bookkeeping (`model_manager`), the interaction state machine
  (`app`), sample buffering (`audio`) and the text helpers they share
  (`text`, `decimal`, `keyed`).
- `app/` is the program around it: audio devices, the speech models, HTTP,
  the language-model client, configuration files and the main loop.
- `tests/` exercises the library.
