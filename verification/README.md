# iced_pv_meet

A LiveKit video-call client whose decision-making core is proved correct
with Verus.

## Layout

- `src/` — the verified library:
  - `pages/` — the login screens and the meeting room: page state machines
    (`meeting_room_page`), the room loop's event handling (`room_loop`), the
    participant rosters (`data`, `meeting_chat`), chat routing and its wire
    format, the toast, the controls, the grid layout (`mosaic_view`) and the
    featured tile.
  - `video/` — frame bookkeeping, the per-tile GPU resource book
    (`pipeline`), capture sizes.
  - `audio/` — ring sizing and the two ring ends over `rtrb`.
  - `api_service` — room-join tokens through `livekit-api`.
  - `sorting`, `text` — a stable insertion sort and string comparison, with
    their proofs.
- `tests/` — tests against the compiled library.
- `app/` — the program around it: iced views and wiring, the LiveKit room
  loop, the sound devices (cpal), the camera (nokhwa) and the wgpu renderer.
- `extras/yuv.wgsl` — the fragment shader that turns I420 planes into RGB.

## Running

The program reads `LIVEKIT_URL`, `LIVEKIT_API_KEY`, `LIVEKIT_API_SECRET`,
`LIVEKIT_ROOM` and `LIVEKIT_IDENTITY` from `.env` or the environment to
pre-fill the login form, and `LANG` to pick the UI language.
