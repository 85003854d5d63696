# troop

A self-hosted remote task manager: e-mail, Telegram and webhook messages
carry commands (`TROOP add …`, `TROOP list`, `TROOP done <id>`, …) that become
tasks stored as Markdown files, managed through a small web UI.

The library under `src/` is verified with Verus:

- `commands` – parsing a message into a command, what each command asks of
  the task store (a message that names no command becomes a task titled
  with its subject), and the text of the answers.
- `filter` – which messages may submit commands (OR across filters, AND
  within one; a sender filter lists the accepted addresses).
- `storage` – the task file format (with a proof that a written task reads
  back unchanged when its fields hold no line breaks where the format puts
  them and it was created in the years 0000 to 9999), task ids, file paths
  and directory listings (newest first, a stable sort).
- `jobs` – the status board of the background pollers and the decisions of
  the poll loop.
- `source` – the message sources: webhook payloads and queues, RFC 822 mail,
  and the source trait.
- `smtp` – reply addresses and sending settings.
- `web` – the HTML pages, the admin forms and the request decisions.
- `text`, `time`, `message`, `config` – the plain values everything works on.

`app/` is the program around it: configuration file, file system, IMAP and
SMTP connections, the tokio pollers and the axum web server.
