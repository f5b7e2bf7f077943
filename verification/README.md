# deltachat_channels

Two parts of a chat program over e-mail, written and proved in Verus:

- reading and decrypting mails: finding the encrypted payload of a mail, what its
  Authentication-Results headers say, and bringing the state of the sender's key up to
  date;
- realtime channels between the devices of a chat: creating the endpoint, joining a topic,
  advertising oneself, sending data, and leaving.

## Layout

- `src/` holds the library. Everything in it is verified, apart from the wrappers of
  functions of mailparse, iroh-base, url and rand. Each wrapper says what it trusts.
- `tests/` holds the tests.
- `app/` holds the program around the library: async code, the database, the network.

What waits for something outside is a value with a next step. The program performs the
step and hands back what came of it; the library says what follows. The contracts of the
`resume` functions relate a step, a reply and the step after it, and bound the number of
steps.

| module | what it holds |
| --- | --- |
| `text` | splitting, joining, words |
| `armor` | recognising armored OpenPGP messages |
| `mail`, `mime` | the parts and headers of a mail, and where the payload stands |
| `auth_results` | verdicts on DKIM, and the candidates for the user's own server |
| `keys`, `peerstate` | keys of peers, and what is known of a peer |
| `decrypt`, `decryption_info` | decrypting a mail, and what is known before |
| `payload` | data with a salt behind it |
| `secret_key`, `peers` | the own key and the addresses of peers, as they are stored |
| `swarm`, `channels` | events of a topic, and the realtime channels |
