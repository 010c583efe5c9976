# network_p2p

Downloads full Ethereum blocks, header and body, from the peers of a network.

- `src/` is the verified library. `full_block` downloads a single block, `full_block_range` a range
  of blocks in batches. Both are state machines: they say what to ask of the network client, and
  are told what came back. `full_block_laws` and `full_block_range_laws` state what holds of them
  whatever peers send: a block has the requested hash, a range has the requested length and start
  and comes in falling order, no header is lost, and only accepted bodies make it into blocks.
  `full_block_range_chain` states that honest peers complete a range of any length.
- `app/` holds the futures that carry a download out through a network client.
- `tests/` runs downloads against clients that hold blocks in memory.

What is trusted: the hash of a header is computed by `alloy_consensus`, and random peers are drawn
by `alloy_primitives`.
