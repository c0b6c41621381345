# ferrl

Control logic of a reinforcement-learning trainer for language models, verified with Verus:
what a checkpoint may be, how its files become a policy with an identity, which keys a cached
decoder attends to, how a group of rollouts is decoded, and how the ranks of a tensor-parallel
world agree before they enter a collective.

The library holds no floating-point instruction and does no I/O. Doubles are held as bit
patterns (`binary64`), files and collectives as steps: a function takes what has been learned so
far and says what is done next.

| Module | What it decides |
| --- | --- |
| `hf` | end-of-sequence ids and vocabulary sizes of a checkpoint, and the ranks' agreement on them |
| `loader` | model families and their options, the capture of checkpoint files, the identity of a policy and the load that is bound to it |
| `gemma4` | configs, weight selection, layouts, attention masks, caches, passes and their replay, replicated adapters |
| `llama` | the layout of a Llama backbone |
| `lm_policy` | sampling parameters, lockstep decoding of a group, scoring windows |
| `grpo` | which rewards and cells enter the reductions |
| `tensor_parallel`, `votes` | shards, coordination of local work, unanimity |
| `binary64`, `text`, `names`, `frames`, `json`, `sha256`, `tensor_file`, `dtype`, `lora` | what the others are made of |

`app/` carries the decisions out: files, serde, tensors, floating point and collectives. `tests/`
runs the library on concrete values.

The contracts rest on a few outside functions, each behind a wrapper that states what is claimed
of it: the JSON parser and writer of `serde_json`, the digest of `sha2`, the header reader of
`safetensors`, the Qwen 3 config of `candle_transformers`, and the quoting of strings by std.
