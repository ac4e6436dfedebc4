# midi_patcher

A live MIDI patcher for playing songs on stage. Each song is a *patch*: a set
of effects (note and controller sequencers, button melodies, pedal melodies,
harmony drums, forwarders) with the notes that trigger them. Patches are
written as risp scripts and reloaded when their files change.

- `src/` is the verified library. Every effect is a state machine whose
  contract gives its next state and the MIDI events it sends; a patch routes
  each event to its effects, keeps effects of one mono group exclusive, and
  returns the actions the application has to carry out. Patch scripts are
  read from the values of evaluated risp scripts.
- `app/` is the program around it: PortMidi input and output, the event
  loop, the threads that run the background jobs of effects, file watching
  and the Carla launcher.
- `tests/` holds the tests of the library.
