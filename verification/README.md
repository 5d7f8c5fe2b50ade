# monado-frame

An in-headset overlay for [Monado](https://monado.freedesktop.org): review screenshots and set
up the finger-frame gesture without leaving the headset.

The crate is a Verus library. What the overlay decides is verified against its contracts:

| Module | What it decides |
| --- | --- |
| `config` | where the settings files and the screenshot folder are, what is read from and written to them |
| `shots`, `times` | which files are screenshots, when they were taken, which are new or too old |
| `pictures` | pixels, previews and grey levels of screenshot files, and which QR text counts |
| `translate`, `picsur`, `remote` | the requests to the two web services and what their replies mean |
| `gallery` | pages, thumbnails and clicks of the gallery |
| `wrist` | the queue of notifications, and when the wrist card shows |
| `photos` | the pool of photo windows and what is done in them |
| `pointer` | what the controllers point at, click and take hold of |
| `overlay` | the SYSTEM button, what can be pointed at, what a frame consists of |
| `session`, `blocker` | the session's lifecycle, and whose input is held back |
| `json`, `text` | documents and text |

`app/` is the program around it: OpenXR, Vulkan, egui, files, processes, HTTP and geometry in
floating point, and the search for QR codes.

Functions marked `#[verifier::external_body]` call `serde_json`, `image`, `chrono`, `base64`
or the standard library; their doc comments say what is taken on trust of each call.

Translate and Share are configured when the program is built, from `MF_TRANSLATE_BASE_URL`,
`MF_TRANSLATE_MODEL`, `MF_TRANSLATE_API_KEY`, `MF_PICSUR_BASE_URL` and `MF_PICSUR_API_KEY`;
what is not set is left out. `extras/build.sh` sets them from `translate.env` and `picsur.env`,
of which `extras/` holds examples:

```sh
cp extras/translate.env.example translate.env
extras/build.sh cargo build
```
