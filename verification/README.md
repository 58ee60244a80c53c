# Audio Mirror

Audio Mirror plays one audio source (the desktop, an output in loopback or an
input) on several outputs at once, from a panel in the tray.

The library under `src/` holds what the program decides and computes, written
in Verus: executable Rust whose behaviour is stated in contracts and proved.
The program under `app/` calls the operating system and does the arithmetic on
samples in floating point; it hands the library plain values and does what the
library says.

## The library

| module | what it holds |
| --- | --- |
| `audio` | sessions: the supervisor, the hub that hands packets on, formats, messages, resampler plans, drift phases, and the rules of each platform (`pulse`, `wasapi`, `coreaudio`) |
| `engine`, `devices`, `controls`, `dsp`, `ring` | the engine on portable streams: its supervisor, device lists, controls, the reader of a queue, and the queues themselves |
| `config` | settings, and what each command changes in them |
| `tray` | when the panel opens and closes, and where |
| `updater`, `install` | progress of an update, and what an installation does |
| `i18n` | the languages of the panel |
| `float`, `text` | bit patterns of single-precision numbers, and text helpers |

Samples, gains and peaks are carried as the bit patterns of single-precision
numbers. Times are nanoseconds, or milliseconds where the name says so, handed
in by the caller.

A state machine is a type with one method per event: it takes what happened
and returns what to do next. The laws that span several functions are public
proof functions named `law_...`.

What the library takes on trust is marked `#[verifier::external_body]`, and
says above it which function it calls and what is claimed of it.
