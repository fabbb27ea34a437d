# glsst

A Discord prediction bot on AWS Lambda and DynamoDB. Users state predictions
(`/create`) and vote for or against the predictions of others (`/vote`); the
bot keeps users, predictions and votes in one DynamoDB table.

## Layout

- `src/` is the verified library (Verus):
  - `table`, `item`, `request`: an insertion-ordered table with distinct keys,
    DynamoDB item values, and key queries;
  - `dynamo`, `deez`: the single-table mapping from entities to items (key
    fields composed as `$service#entity#name_value...`) and the queries that
    find them again; `hw` is an earlier, simpler form of the same mapping;
  - `entity`: the bot's users, predictions and votes;
  - `discord`, `consumer`: interaction payloads, and what the command handler
    reads, decides, stores and answers;
  - `hexcode`, `signature`, `receiver`: checking that a request was signed by
    Discord (Ed25519 over timestamp and body).
- `app/` is the unverified program around it: the Lambda runtimes, the
  DynamoDB and webhook calls, and JSON (de)serialisation.
- `tests/` runs the library on concrete values.
