# demonator

A typewriter-style player for terminal demos. A demo is a YAML file of steps: commands that are
typed and run, comments, pauses and questions, optionally in chapters.

- `src/` decides. It resolves a config into steps, highlights and types text, fills in variables,
  picks values out of JSON and command output, carries the environment from command to command,
  and says at each point what is to be done next and where the reply leads (`play`, `session`).
  It is verified with Verus; `laws` states what holds of every demo. What the proofs take on
  trust are the calls into other crates and into std that Verus does not know, each behind a
  declaration of its own: `serde_json` (`json_path`), `regex` (`pattern`), the decoding of bytes
  (`bytes`), `char::is_alphanumeric` (`highlight`) and `String::push` (`text`).
- `app/` acts. It reads the config file, talks to the terminal, runs shells, sleeps and prints.
- `tests/` runs the library.

A session is a loop between the two:

    let mut session = Session::new(config, environment);
    loop { // until the action is to finish
        let reply = perform(session.next_action());
        print(session.resume(reply));
    }
