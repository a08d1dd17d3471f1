# front_chat

The logic of a Theater actor that serves a chat page, talks to browsers over
WebSockets and relays their messages to a chat-state service, written in Verus
with its contracts proved.

- `src/` is the verified library:
  - `json`, `text`: the JSON document model and the string helpers;
  - `content`, `message`: message parts, tool-result previews, chat messages
    and how an assistant turn is split into one message per tool step;
  - `history`: reading the conversation history that the chat-state service
    sends as JSON;
  - `protocol`, `state`: the messages on both sides and the actor's state;
  - `actor`, `http`, `init`: what each event does to the state and which
    messages go out;
  - `laws`: properties that span several functions;
  - `external`: the calls into `serde_json` and std, each with a contract that
    is believed rather than proved.
- `app/` is the actor around it: the JSON forms of the library's types, the
  interface to the Theater runtime, and the handlers that perform the I/O.
- `tests/` runs the library on concrete inputs.
