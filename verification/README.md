# Bunkr Downloader

A native desktop program that downloads albums from Bunkr. Its logic is a library, `bunkr_dl`, whose
contracts Verus proves; the window, the network and the disk are a thin program around it.

## The library (`src/`)

| Module     | What it holds                                                                     |
|------------|-----------------------------------------------------------------------------------|
| `model`    | Album files, statuses, and the messages between window and worker, with their views |
| `page`     | Cutting the list of files out of an album page and turning it into JSON           |
| `literal`  | What turning a JavaScript list into JSON means, and that once is enough           |
| `cipher`   | Decrypting the links that the resolving service hands out                         |
| `resolve`  | Asking the service for a link: endpoints, attempts, waits                         |
| `download` | The course of one download, step by step                                          |
| `worker`   | How the worker takes commands: batches and albums in order, steering at any time  |
| `state`    | The state of the window and how the worker's messages change it                   |
| `controls` | What the buttons do, and when                                                     |
| `display`  | Counts, sums, labels and colours                                                  |
| `batch`    | How a whole batch of downloads ends                                               |
| `size`     | Human-readable byte counts                                                        |
| `names`    | File names without reserved characters, and the default directory                 |
| `text`     | Decimal numerals and small string helpers                                         |

What is taken from other crates without proof is marked where it is called: `base64` in `cipher`,
`regex` in `page`, and two functions of the standard library in `cipher` and `text`.

## The program (`app/`)

`main.rs` opens the window (`window.rs`), which talks over channels to the worker
(`background.rs`); `network.rs` makes the requests and `records.rs` reads JSON. Whatever is floating
point, such as percentages and transfer rates, is computed there.
