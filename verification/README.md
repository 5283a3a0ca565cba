# chain_network

Networking service of a blockchain node that can take part in several blockchain networks at the
same time, verified with Verus.

The library in `src/` does no input or output. It takes values, decides, and returns what has to be
done:

- `config`: the protocols that are registered for each chain, and their order, which is what every
  protocol index refers to;
- `service`: the service itself, and the state machine that turns events of the connection layer
  into events of the service;
- `event`: the events, and what the state machine asks for in between;
- `request`, `discovery`, `warp_sync`: requests to other nodes and the reading of the responses;
- `codecs`, `substream`: the handshakes that substreams are accepted and opened with;
- `connection`, `announce`, `types`, `bytes`, `scale`: the values that the others work on;
- `laws`: what holds of the service as a whole.

`app/` is the asynchronous front: it holds the locks, awaits the connection layer, and calls the
codecs. Both the connection layer and the codecs are supplied through traits.
