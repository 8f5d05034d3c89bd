# jay-miner

A headless client for the Jay Network's browser-mining pool, and under it a library whose
behaviour is stated in contracts and proved with Verus.

There is no proof of work in it: a share's hash is 64 random hexadecimal digits, which is what the
pool's browser page sends too. It is meant for one wallet on one device. The operator of the pool
may not welcome clients that are no browsers, and decides what comes of them.

## Layout

`src/` is the library. It reads no files, opens no connections and holds no floating-point numbers.

| Module | What it states |
|--------|----------------|
| `text` | decimal numerals, trimming, searching |
| `clock`, `entropy` | milliseconds since the epoch; random digits and nonces |
| `ids` | the identifiers of a miner, and where the device id of a run comes from |
| `wallet` | which wallet addresses are accepted |
| `token` | which replies of the token endpoint hold a token, and how the others are reported |
| `pool_url` | the address of a session, and what may be shown of it |
| `json` | JSON documents |
| `wire` | the messages to the pool |
| `protocol` | what the messages from the pool do to a miner |
| `session` | a session as a state machine: events in, frames out |
| `balance` | the wallet's balance in a reply of the chain's REST API |
| `reconnect` | how long to pause after a failed session, and when to give up |
| `report` | lines of the log, each of which stays on one line |

Functions named `law_..` prove what holds across functions: that a device id, once written down, is
kept; that what is shown of an address tells nothing of a token but its length; that every judged
share is counted once; that a shutdown is announced and nothing follows it.

`app/` is the program around the library: the command line, the device-id file, HTTP (the token
and the balance), the WebSocket, the timers, the sums of rewards and the logging.

`tests/` runs the library on concrete values.

## Protocol

| Step | Message |
|------|---------|
| 1 | `POST` to the token endpoint, which answers `{"token": ".."}` |
| 2 | open the pool's WebSocket with `?token=..` |
| 3 | send `status`: `sessionId`, `deviceId`, `status` (`online`), `wallet` |
| 4 | send `start_mining`: `wallet`, `threads`, `sessionId`, `deviceId`, and `minerId` once there is one |
| 5 | every 30 s send `ping`: `sessionId`, `deviceId`, `status` (`online`) |
| 6 | every second, with the probability `--intensity`, send `submit_share`: `nonce`, `hash`, `jobId`, `difficulty` (1000000), `sessionId`, `deviceId`, `minerId` |
| 7 | on shutdown send `stop_mining` and `status` (`offline`), then close |

The pool sends `auth_success` and `mining_started` (with `minerId`), `job` (`jobId`, `target`),
`share_accepted`, `share_rejected`, `mining_reward` (`amount`, `shares`, `txHash`), `block_found`,
`pool_stats` and `pong`.

After the n-th failed session in a row the client pauses for min(1 s * 2^n, 30 s).

## Options

| Flag | Environment | Default |
|------|-------------|---------|
| `--wallet` | `JAY_WALLET` | none; must start with `yjay` |
| `--threads` | `JAY_THREADS` | 4; only told to the pool |
| `--intensity` | `JAY_INTENSITY` | 1.0; from 0.0 to 1.0 |
| `--token-url` | `JAY_TOKEN_URL` | `https://mining.thejaynetwork.com/api/ws-token` |
| `--pool-ws` | `JAY_POOL_WS` | `wss://api-pool.winnode.xyz` |
| `--rest-url` | `JAY_REST_URL` | `https://api-jayn.winnode.xyz`; the balance is asked for at `/cosmos/bank/v1beta1/balances/` and counted in `ujay` |
| `--device-id-file` | `JAY_DEVICE_ID_FILE` | `device_id` |
| `--stats-interval` | `JAY_STATS_INTERVAL` | 10 seconds; 0 prints no `[stats]` lines |
| `--balance-interval` | `JAY_BALANCE_INTERVAL` | 60 seconds; 0 reads no balance |
| `--max-reconnects` | `JAY_MAX_RECONNECTS` | 0, which is no limit |
| `--verbose` | | off |
