# io_dispatcher

A dispatcher for framed transports: frames are decoded from a connection and handed to a
service, and what the service answers is written back in the order of the calls, however
late or early an answer comes.

The dispatcher is a state machine without input or output. Its owner starts a poll, does
the outside work that the machine asks for, and hands the replies back.

* `src/` is the verified library.
  * `moment`, `item`, `action`: the values that the machine and its owner exchange.
  * `service_result`, `error`, `inner`: the queue that puts answers into order, and the
    errors that are kept.
  * `machine`: what each step does. `dispatcher`: the executable dispatcher, proved to do
    just that.
  * `run`, `delivery`, `ordering`, `keepalive`, `lifecycle`: what holds of every run.
* `tests/` runs the library, single steps as well as whole connections.
* `app/` is the dispatcher as a future, over the transports and services of ntex.
