# physical_object

Rigid constraints and time integration for systems of rigid bodies, verified
with Verus.

The library decides everything a run decides and leaves the numerical work to a
solver. It never calls the solver: a run asks for one call at a time and is told
the answer, so every order of calls, every failure and every message is under a
contract.

## Layout

| Module | What it holds |
| --- | --- |
| `scalar` | the arithmetic that everything is written over |
| `fixed` | fixed-point numbers, an instance of it that is itself verified |
| `fixed::rounding` | what rounding keeps: order, signs, nearness |
| `fixed::laws` | rods, poses, rates and drift in fixed-point numbers |
| `fixed::pulls` | gravity between bodies, and the total momentum |
| `fixed::rods` | multiplier forces: internal, and adjoint to the rates |
| `fixed::gradients` | that a rod pushes along the gradient of its error |
| `fixed::lengths` | how long unit vectors and unit quaternions are |
| `fixed::turning` | that an orientation turns without changing its length |
| `fixed::caps` | that one step crosses no body, and how the cap varies |
| `linalg` | vectors, matrices, quaternions, and their places in flat vectors |
| `system` | bodies, systems, and the two state vectors of a system |
| `constrain` | rods: refusals, residuals, multiplier forces, drift |
| `integrate` | methods, reports, and how a run starts or is refused |
| `integrate::dynamics` | right-hand sides and root functions |
| `integrate::bounds` | the step cap of collision detection, unit quaternions |
| `integrate::driver` | a run in progress: its state, questions and answers |
| `integrate::driver::transitions` | what each answer leads to |
| `integrate::driver::machine` | the methods by which a run is told the answers |
| `integrate::driver::steps` | facts about single answers, proved kind by kind |
| `integrate::driver::laws` | what holds of every run |
| `integrate::driver::momenta` | what a run does to angular momenta |
| `text` | numerals and quoted text in messages |

`app/` runs the library with double-precision numbers on the solver crates; the
contact geometry and the differential-algebraic solver come in through its
`World` trait. `tests/` plays whole runs against a scripted solver.

## Numbers

The contracts name each arithmetic operation and assume no law of arithmetic,
because rounding arithmetic has none to offer. They fix which quantities are
combined, in which order, and where the result goes. What needs arithmetic to
keep a law is proved of `fixed::Fixed`: exactly where it holds exactly, for
instance that a rod made without a length has no error at all in the
configuration it was measured from, and otherwise up to a stated number of
roundings, for instance that a body turns without changing the length of its
quaternion.
