# Swapper

Swapper switches between saved Riot accounts. It keeps each account's signed-in session, puts the
one that is wanted in the place of the live one, and starts the game. It can also hand the lobby
to a phone through Tailscale.

`src/` is the library, verified with Verus. It decides; it does no input or output itself.

| module | what it decides |
| --- | --- |
| `vault` | what an account is, which files make up a session, where each goes back to, and whether somebody is signed in |
| `windows` | which processes a stop concerns, when it gives up, when a wait is over, and what a path is made of |
| `riot` | when a saved session may be touched, and the steps of switching and adding |
| `riot_client`, `lcu` | where the local clients listen and what they answer |
| `identity`, `detection` | who is signed in, and what that changes |
| `remote` | remote control: Tailscale, the status that is shown, the champion select |
| `notify`, `view` | what the user is told and shown |
| `text`, `number`, `unicode`, `codec`, `json` | text, numbers and the formats of outside crates |

Flows that wait for the outside (a switch, a stop, a detection, remote control) are state
machines: `action` or `query` says what to do, `handle` or `proceed` takes the result. Their laws
hold for every sequence of results.

`app/` is the program around the library: files, processes, sockets, windows. `tests/` runs the
library from outside.
