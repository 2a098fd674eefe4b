# Badge LED firmware

Firmware for a badge with ten WS2812 LEDs, a 128 by 128 pixel screen and five
buttons. It shows a background image, animates the LEDs with a set of patterns
and is controlled with the buttons. The LEDs are driven by the BIO
co-processor; the badge starts with the pattern BR Runner at full brightness.

## Controls

| Action | Button | Effect |
|---|---|---|
| Next pattern | `→` / `d` / `3` | Advance to the next pattern |
| Previous pattern | `←` / `↑` / `a` / `1` | Go back to the previous pattern |
| Camera | `🔥` (PROG) | Scan a QR code, then redraw |
| Power off | hold `↓` 1.5 to 2 s | Blank, wait 3 s (release the button), then sleep |

A press of `↓` dims the LEDs by a tenth.

That is the layout `Patterns`, the one that the badge runs with. In the layout `Brightness`, `↑` makes the LEDs
brighter and `↓` makes them dimmer, in ten levels. Holding `↓` for three
seconds powers the badge off once the LEDs are at their dimmest; holding `↑`
for ten seconds at full brightness loads the rainbow pattern and plays an
animation on the screen, until a pattern button or the camera is used.

## Layout of the project

- `src/` is the control logic, proved with Verus:
  - `bio/pattern.rs`: the patterns and their order
  - `bio/hal.rs`: the calls to the co-processor and its replies
  - `bio/script.rs`: sequences of calls, and what a failure means to them
  - `bio/driver.rs`: the driver: start, swap of the pattern, brightness
  - `leds.rs`: the LED control service
  - `keys.rs`, `badge.rs`: the buttons, and what they lead to
  - `boot.rs`: what happens between power-on and the first message
  - `screen.rs`, `mirror.rs`: frames and the animation; the log mirror
  - `bio/laws.rs`, `laws.rs`: what holds over whole runs
- `app/` is the program around it: the operating system, the screen and the
  co-processor. The directory that `BADGE_ASSETS` names holds the generated
  bitmaps and machine code that it bakes in.
- `tests/` runs the control logic.
