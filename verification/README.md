# wallet_program

The verified core of a Solana smart-wallet program, written in Verus.

- `src/base64url.rs`: unpadded base64url encoding and a lenient decoder, with the
  round-trip law.
- `src/webauthn.rs`: clientDataJSON field extraction and checks (challenge, type,
  origin), the legacy clientDataJSON reconstruction, and the authenticator data parser.
- `src/secp256r1.rs`: the secp256r1 (passkey) authentication payload and the
  authentication decisions.
- `src/state/`: fee config and session account layouts; `src/processor/`: the
  decisions of InitFeeConfig, UpdateFeeRecipient (timelocked) and Execute;
  `src/entrypoint.rs`: instruction routing.
- `app/lib.rs`: the runtime glue (accounts, sysvars, account creation, writing data back).

Hashing (the `sol_sha256` syscall), sysvar reads and cross-program invocations happen
outside the library; the library takes their results as plain values.
